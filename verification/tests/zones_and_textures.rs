use open_eyes::gpu::{GpuFrame, GpuTexture, TextureFormat};
use open_eyes::stitch::{ZonePrivacy, ZoneType};

#[test]
fn internal_zone_privacy_defaults() {
    let privacy = ZonePrivacy::internal_default();
    assert!(!privacy.record_video);
    assert!(!privacy.track_entities);
    assert!(privacy.occupancy_only);
    assert!(!privacy.share_with_mesh);
}

#[test]
fn zone_types_are_distinct() {
    assert_ne!(ZoneType::External, ZoneType::Internal);
    assert_ne!(ZoneType::Internal, ZoneType::Vehicle);
    assert_ne!(ZoneType::Vehicle, ZoneType::PublicFacing);
}

#[test]
fn external_and_general_privacy_defaults() {
    let ext = ZonePrivacy::external_default();
    assert!(ext.record_video && ext.track_entities);
    assert_eq!(ext.retention_hours, 168);
    assert!(!ext.share_with_mesh);
    let general = ZonePrivacy::default();
    assert_eq!(general.retention_hours, 72);
    assert!(!general.share_with_mesh);
    assert!(!general.occupancy_only);
    assert_eq!(ZonePrivacy::internal_default().retention_hours, 0);
}

#[test]
fn texture_resolutions() {
    let t = GpuTexture::new(7, 640, 480, TextureFormat::Rgba8);
    assert_eq!(t.id(), 7);
    assert_eq!(t.quarter_res(), (160, 120));
    assert_eq!(t.half_res(), (320, 240));
    let odd = GpuTexture::new(1, 641, 3, TextureFormat::R8);
    assert_eq!(odd.quarter_res(), (160, 0));
}

#[test]
fn gpu_frame_derived_textures() {
    let src = GpuTexture::new(5, 640, 480, TextureFormat::Rgba8);
    let first = GpuFrame::new(src, None);
    assert_eq!(*first.source(), src);
    assert_eq!(first.gray(), GpuTexture::new(1005, 640, 480, TextureFormat::R8));
    assert_eq!(first.gray_quarter(), GpuTexture::new(2005, 160, 120, TextureFormat::R8));
    assert_eq!(first.edges(), GpuTexture::new(3005, 640, 480, TextureFormat::R8));
    assert_eq!(first.flow(), None);

    let next_src = GpuTexture::new(9, 640, 480, TextureFormat::Rgba8);
    let second = GpuFrame::new(next_src, Some(first.gray_quarter_for_next_frame()));
    assert_eq!(second.flow(), Some(GpuTexture::new(4009, 160, 120, TextureFormat::Rg16f)));
}

#[test]
fn texture_fields_and_reduced_resolutions() {
    let t = GpuTexture::new(0, 641, 481, TextureFormat::R8);
    assert_eq!(t.id(), 0);
    assert_eq!(t.width(), 641);
    assert_eq!(t.height(), 481);
    assert_eq!(t.format(), TextureFormat::R8);
    assert_eq!(t.half_res(), (320, 240));
    let u = GpuTexture::new(3, 643, 483, TextureFormat::Yuv420);
    assert_eq!(u.quarter_res(), (160, 120));
    assert_eq!(u.width(), u.width);
    assert_eq!(u.format(), TextureFormat::Yuv420);
}
