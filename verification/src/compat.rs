//! Camera compatibility: from what is printed on the box (the
//! companion app's name, or the chip name), tell whether the camera can be
//! flashed with the open firmware.

use vstd::prelude::*;
use crate::text::{
    ascii_lower, chars_of, contains, has_substring, is_ascii_text, lowercase, remove_separators,
    strip_separators, to_lowercase,
};

verus! {

/// Overall answer for a camera.
#[derive(Debug, Clone, Copy, PartialEq, Eq, Structural)]
pub enum Verdict {
    /// Confirmed flashable with the open firmware
    Compatible,
    /// Might work but untested — buy at your own risk
    PossiblyCompatible,
    /// Confirmed incompatible — do not buy
    Incompatible,
    /// Not enough info to determine
    Unknown,
}

/// Support of a chip by a firmware project.
#[derive(Debug, Clone, Copy, PartialEq, Eq, Structural)]
pub enum SupportStatus {
    Supported,
    Experimental,
    Planned,
    Unsupported,
}

/// How firmware gets onto a camera with this chip.
#[derive(Debug, Clone, Copy, PartialEq, Eq, Structural)]
pub enum FlashMethod {
    /// SD card boot — the consumer path
    SdCard,
    /// Needs UART serial connection (soldering)
    Uart,
    /// Needs SoC chip swap (expert only)
    ChipSwap,
    /// No known flash method
    NoMethod,
}

/// A camera chip (system on chip) and its firmware support.
#[derive(Debug, Clone)]
pub struct SoCInfo {
    pub name: String,
    pub vendor: String,
    pub architecture: String,
    pub openipc: SupportStatus,
    pub thingino: SupportStatus,
    pub flash_method: FlashMethod,
    pub has_npu: bool,
}

/// The facts of a chip entry, with its names as character sequences.
pub struct SocFacts {
    pub name: Seq<char>,
    pub vendor: Seq<char>,
    pub architecture: Seq<char>,
    pub openipc: SupportStatus,
    pub thingino: SupportStatus,
    pub flash_method: FlashMethod,
    pub has_npu: bool,
}

impl View for SoCInfo {
    type V = SocFacts;

    open spec fn view(&self) -> SocFacts {
        SocFacts {
            name: self.name@,
            vendor: self.vendor@,
            architecture: self.architecture@,
            openipc: self.openipc,
            thingino: self.thingino,
            flash_method: self.flash_method,
            has_npu: self.has_npu,
        }
    }
}

impl SoCInfo {
    /// A copy of this entry.
    pub(crate) fn duplicate(&self) -> (r: SoCInfo)
        ensures
            r@ == self@,
    {
        SoCInfo {
            name: self.name.clone(),
            vendor: self.vendor.clone(),
            architecture: self.architecture.clone(),
            openipc: self.openipc,
            thingino: self.thingino,
            flash_method: self.flash_method,
            has_npu: self.has_npu,
        }
    }
}

/// The answer of a compatibility check.
#[derive(Debug, Clone)]
pub struct CompatResult {
    pub verdict: Verdict,
    pub reason: String,
    pub soc: Option<SoCInfo>,
    pub recommendations: Vec<String>,
}

/// The facts of a compatibility answer, with its texts as character
/// sequences.
pub struct CompatFacts {
    pub verdict: Verdict,
    pub reason: Seq<char>,
    pub soc: Option<SocFacts>,
    pub recommendations: Seq<Seq<char>>,
}

/// The views of a list of strings.
pub open spec fn strings_view(v: Seq<String>) -> Seq<Seq<char>> {
    v.map_values(|s: String| s@)
}

impl View for CompatResult {
    type V = CompatFacts;

    open spec fn view(&self) -> CompatFacts {
        CompatFacts {
            verdict: self.verdict,
            reason: self.reason@,
            soc: match self.soc {
                Some(s) => Some(s@),
                None => None,
            },
            recommendations: strings_view(self.recommendations@),
        }
    }
}

// ── The chip database ──────────────────────────────────────────────

/// A chip entry built from its parts.
pub open spec fn soc_facts(
    name: &str,
    vendor: &str,
    architecture: &str,
    openipc: SupportStatus,
    thingino: SupportStatus,
    flash_method: FlashMethod,
    has_npu: bool,
) -> SocFacts {
    SocFacts {
        name: name@,
        vendor: vendor@,
        architecture: architecture@,
        openipc,
        thingino,
        flash_method,
        has_npu,
    }
}

/// The known chips, in lookup order.
pub open spec fn soc_table() -> Seq<SocFacts> {
    seq![
        soc_facts("T20", "Ingenic", "MIPS", SupportStatus::Supported, SupportStatus::Supported, FlashMethod::SdCard, false),
        soc_facts("T21", "Ingenic", "MIPS", SupportStatus::Supported, SupportStatus::Supported, FlashMethod::SdCard, false),
        soc_facts("T31", "Ingenic", "MIPS", SupportStatus::Supported, SupportStatus::Supported, FlashMethod::SdCard, true),
        soc_facts("T40", "Ingenic", "MIPS", SupportStatus::Experimental, SupportStatus::Planned, FlashMethod::SdCard, true),
        soc_facts("Hi3516EV200", "HiSilicon", "ARM Cortex-A7", SupportStatus::Supported, SupportStatus::Unsupported, FlashMethod::SdCard, false),
        soc_facts("Hi3518EV200", "HiSilicon", "ARM926EJ-S", SupportStatus::Supported, SupportStatus::Unsupported, FlashMethod::SdCard, false),
        soc_facts("Hi3518EV300", "HiSilicon", "ARM Cortex-A7", SupportStatus::Supported, SupportStatus::Unsupported, FlashMethod::Uart, false),
        soc_facts("SSC338Q", "Sigmastar", "ARM Cortex-A7", SupportStatus::Supported, SupportStatus::Unsupported, FlashMethod::SdCard, true),
        soc_facts("SSD202", "Sigmastar", "ARM Cortex-A7", SupportStatus::Supported, SupportStatus::Unsupported, FlashMethod::SdCard, false),
        soc_facts("AK3918EV300", "Anyka", "ARM", SupportStatus::Unsupported, SupportStatus::Unsupported, FlashMethod::NoMethod, false),
    ]
}

/// The views of a list of chip entries.
pub open spec fn soc_list_view(v: Seq<SoCInfo>) -> Seq<SocFacts> {
    v.map_values(|s: SoCInfo| s@)
}

fn soc(
    name: &str,
    vendor: &str,
    architecture: &str,
    openipc: SupportStatus,
    thingino: SupportStatus,
    flash_method: FlashMethod,
    has_npu: bool,
) -> (r: SoCInfo)
    ensures
        r@ == soc_facts(name, vendor, architecture, openipc, thingino, flash_method, has_npu),
{
    SoCInfo {
        name: String::from_str(name),
        vendor: String::from_str(vendor),
        architecture: String::from_str(architecture),
        openipc,
        thingino,
        flash_method,
        has_npu,
    }
}

/// The chip database: Ingenic chips (good Thingino support), HiSilicon
/// and Sigmastar chips (OpenIPC), and the poorly supported Anyka chip.
pub fn soc_database() -> (db: Vec<SoCInfo>)
    ensures
        soc_list_view(db@) == soc_table(),
{
    let mut db: Vec<SoCInfo> = Vec::new();
    db.push(soc("T20", "Ingenic", "MIPS", SupportStatus::Supported, SupportStatus::Supported, FlashMethod::SdCard, false));
    db.push(soc("T21", "Ingenic", "MIPS", SupportStatus::Supported, SupportStatus::Supported, FlashMethod::SdCard, false));
    db.push(soc("T31", "Ingenic", "MIPS", SupportStatus::Supported, SupportStatus::Supported, FlashMethod::SdCard, true));
    // SD card flash unless the board uses secure boot
    db.push(soc("T40", "Ingenic", "MIPS", SupportStatus::Experimental, SupportStatus::Planned, FlashMethod::SdCard, true));
    // SD card flash if the stock firmware is Linux
    db.push(soc("Hi3516EV200", "HiSilicon", "ARM Cortex-A7", SupportStatus::Supported, SupportStatus::Unsupported, FlashMethod::SdCard, false));
    db.push(soc("Hi3518EV200", "HiSilicon", "ARM926EJ-S", SupportStatus::Supported, SupportStatus::Unsupported, FlashMethod::SdCard, false));
    // LiteOS stock firmware: no SD card flash
    db.push(soc("Hi3518EV300", "HiSilicon", "ARM Cortex-A7", SupportStatus::Supported, SupportStatus::Unsupported, FlashMethod::Uart, false));
    db.push(soc("SSC338Q", "Sigmastar", "ARM Cortex-A7", SupportStatus::Supported, SupportStatus::Unsupported, FlashMethod::SdCard, true));
    db.push(soc("SSD202", "Sigmastar", "ARM Cortex-A7", SupportStatus::Supported, SupportStatus::Unsupported, FlashMethod::SdCard, false));
    db.push(soc("AK3918EV300", "Anyka", "ARM", SupportStatus::Unsupported, SupportStatus::Unsupported, FlashMethod::NoMethod, false));
    assert(soc_list_view(db@) =~= soc_table());
    db
}

/// Appends a copy of `s` to a list of strings.
fn push_text(v: &mut Vec<String>, s: &str)
    ensures
        strings_view(final(v)@) == strings_view(old(v)@).push(s@),
{
    v.push(String::from_str(s));
    assert(strings_view(v@) =~= strings_view(old(v)@).push(s@));
}

// ── Lookup by chip name ─────────────────────────────────────────────

/// Chip names are compared case-insensitively and without `-`, `_` or
/// spaces: the normalised form of a query.
pub open spec fn soc_key(s: Seq<char>) -> Seq<char> {
    strip_separators(lowercase(s))
}

/// The normalised form of a database chip name (the names are ASCII, so
/// their lower case is the ASCII one).
pub open spec fn entry_key(name: Seq<char>) -> Seq<char> {
    strip_separators(ascii_lower(name))
}

/// A query matches an entry when either normalised name contains the
/// other.
pub open spec fn soc_name_matches(query_key: Seq<char>, entry: SocFacts) -> bool {
    has_substring(query_key, entry_key(entry.name)) || has_substring(entry_key(entry.name), query_key)
}

/// Index of the first entry at or after `i` that the query matches.
pub open spec fn first_soc_match(query_key: Seq<char>, table: Seq<SocFacts>, i: nat) -> Option<nat>
    decreases table.len() - i,
{
    if i >= table.len() {
        None
    } else if soc_name_matches(query_key, table[i as int]) {
        Some(i)
    } else {
        first_soc_match(query_key, table, i + 1)
    }
}

/// Verdict for a known chip: SD card flash with a supported firmware is
/// compatible; experimental SD card support or supported UART flash is
/// possibly compatible; chip swap or no flash method is incompatible.
pub open spec fn soc_verdict(f: SocFacts) -> Verdict {
    match (f.flash_method, f.openipc, f.thingino) {
        (FlashMethod::SdCard, SupportStatus::Supported, _) => Verdict::Compatible,
        (FlashMethod::SdCard, _, SupportStatus::Supported) => Verdict::Compatible,
        (FlashMethod::SdCard, SupportStatus::Experimental, _) => Verdict::PossiblyCompatible,
        (FlashMethod::Uart, SupportStatus::Supported, _) => Verdict::PossiblyCompatible,
        (FlashMethod::ChipSwap, _, _) => Verdict::Incompatible,
        (FlashMethod::NoMethod, _, _) => Verdict::Incompatible,
        _ => Verdict::Unknown,
    }
}

/// The name under which a flash method is reported.
pub open spec fn flash_method_name(m: FlashMethod) -> Seq<char> {
    match m {
        FlashMethod::SdCard => "SdCard"@,
        FlashMethod::Uart => "Uart"@,
        FlashMethod::ChipSwap => "ChipSwap"@,
        FlashMethod::NoMethod => "None"@,
    }
}

/// The explanation given for a known chip.
pub open spec fn soc_reason(v: Verdict, f: SocFacts) -> Seq<char> {
    let head = f.vendor + " "@ + f.name;
    match v {
        Verdict::Compatible => head + " — SD card flashable, "@ + (if f.thingino
            == SupportStatus::Supported {
            "Thingino"@
        } else {
            "OpenIPC"@
        }) + " support. Buy it."@,
        Verdict::PossiblyCompatible => head
            + " — supported but may need UART flash (soldering). Check if the specific camera's stock firmware is Linux-based."@,
        Verdict::Incompatible => head + " — flash method: "@ + flash_method_name(f.flash_method)
            + ". Not consumer-flashable."@,
        Verdict::Unknown => head + " — support status unclear."@,
    }
}

/// The answer for a known chip.
pub open spec fn soc_found(f: SocFacts) -> CompatFacts {
    CompatFacts {
        verdict: soc_verdict(f),
        reason: soc_reason(soc_verdict(f), f),
        soc: Some(f),
        recommendations: Seq::empty(),
    }
}

/// The answer for a chip that is not in the database.
pub open spec fn soc_not_found(name: Seq<char>) -> CompatFacts {
    CompatFacts {
        verdict: Verdict::Unknown,
        reason: "SoC '"@ + name + "' not in database. Check openipc.org/cameras/vendors."@,
        soc: None,
        recommendations: seq![
            "Check https://openipc.org/cameras/vendors"@,
            "Check https://thingino.com"@,
            "Submit the SoC to the open-eyes compatibility list"@,
        ],
    }
}

/// The answer of a lookup by chip name `name` whose lower case is
/// `lowered`: the first database entry that the normalised name matches,
/// or "not in database".
pub open spec fn soc_check_lowered(name: Seq<char>, lowered: Seq<char>) -> CompatFacts {
    match first_soc_match(strip_separators(lowered), soc_table(), 0) {
        Some(i) => soc_found(soc_table()[i as int]),
        None => soc_not_found(name),
    }
}

/// The answer of a lookup by chip name.
pub open spec fn soc_check(name: Seq<char>) -> CompatFacts {
    soc_check_lowered(name, lowercase(name))
}

/// The verdict for a chip entry.
fn verdict_for(info: &SoCInfo) -> (v: Verdict)
    ensures
        v == soc_verdict(info@),
{
    match (info.flash_method, info.openipc, info.thingino) {
        (FlashMethod::SdCard, SupportStatus::Supported, _) => Verdict::Compatible,
        (FlashMethod::SdCard, _, SupportStatus::Supported) => Verdict::Compatible,
        (FlashMethod::SdCard, SupportStatus::Experimental, _) => Verdict::PossiblyCompatible,
        (FlashMethod::Uart, SupportStatus::Supported, _) => Verdict::PossiblyCompatible,
        (FlashMethod::ChipSwap, _, _) => Verdict::Incompatible,
        (FlashMethod::NoMethod, _, _) => Verdict::Incompatible,
        _ => Verdict::Unknown,
    }
}

/// The name under which a flash method is reported.
pub(crate) fn flash_method_text(m: FlashMethod) -> (t: &'static str)
    ensures
        t@ == flash_method_name(m),
{
    match m {
        FlashMethod::SdCard => "SdCard",
        FlashMethod::Uart => "Uart",
        FlashMethod::ChipSwap => "ChipSwap",
        FlashMethod::NoMethod => "None",
    }
}

/// The answer for a known chip.
fn found_result(info: &SoCInfo) -> (r: CompatResult)
    ensures
        r@ == soc_found(info@),
{
    let verdict = verdict_for(info);
    let mut reason = String::from_str(info.vendor.as_str());
    reason.append(" ");
    reason.append(info.name.as_str());
    match verdict {
        Verdict::Compatible => {
            reason.append(" — SD card flashable, ");
            if info.thingino == SupportStatus::Supported {
                reason.append("Thingino");
            } else {
                reason.append("OpenIPC");
            }
            reason.append(" support. Buy it.");
        },
        Verdict::PossiblyCompatible => {
            reason.append(
                " — supported but may need UART flash (soldering). Check if the specific camera's stock firmware is Linux-based.",
            );
        },
        Verdict::Incompatible => {
            reason.append(" — flash method: ");
            reason.append(flash_method_text(info.flash_method));
            reason.append(". Not consumer-flashable.");
        },
        Verdict::Unknown => {
            reason.append(" — support status unclear.");
        },
    }
    let recommendations: Vec<String> = Vec::new();
    assert(strings_view(recommendations@) =~= Seq::<Seq<char>>::empty());
    CompatResult { verdict, reason, soc: Some(info.duplicate()), recommendations }
}

/// The answer for a chip that is not in the database.
fn not_found_result(soc_name: &str) -> (r: CompatResult)
    ensures
        r@ == soc_not_found(soc_name@),
{
    let mut reason = String::from_str("SoC '");
    reason.append(soc_name);
    reason.append("' not in database. Check openipc.org/cameras/vendors.");
    let mut recommendations: Vec<String> = Vec::new();
    push_text(&mut recommendations, "Check https://openipc.org/cameras/vendors");
    push_text(&mut recommendations, "Check https://thingino.com");
    push_text(&mut recommendations, "Submit the SoC to the open-eyes compatibility list");
    assert(strings_view(recommendations@) =~= seq![
        "Check https://openipc.org/cameras/vendors"@,
        "Check https://thingino.com"@,
        "Submit the SoC to the open-eyes compatibility list"@,
    ]);
    CompatResult { verdict: Verdict::Unknown, reason, soc: None, recommendations }
}

proof fn lemma_table_names_ascii()
    ensures
        forall|k: int| 0 <= k < soc_table().len() ==> is_ascii_text(#[trigger] soc_table()[k].name),
{
    reveal_strlit("T20");
    reveal_strlit("T21");
    reveal_strlit("T31");
    reveal_strlit("T40");
    reveal_strlit("Hi3516EV200");
    reveal_strlit("Hi3518EV200");
    reveal_strlit("Hi3518EV300");
    reveal_strlit("SSC338Q");
    reveal_strlit("SSD202");
    reveal_strlit("AK3918EV300");
}

/// The normalised form of a database chip name.
fn entry_key_of(name: &str) -> (k: Vec<char>)
    requires
        is_ascii_text(name@),
    ensures
        k@ == entry_key(name@),
{
    let lower = to_lowercase(name);
    let chars = chars_of(lower.as_str());
    remove_separators(&chars)
}

/// Looks a chip up by its name `soc_name`, given in lower case as
/// `lowered`: the first database entry whose normalised name contains the
/// normalised query, or is contained in it.
pub fn check_soc_lowercased(soc_name: &str, lowered: &str) -> (r: CompatResult)
    ensures
        r@ == soc_check_lowered(soc_name@, lowered@),
{
    let query = remove_separators(&chars_of(lowered));
    let db = soc_database();
    let ghost table = soc_table();
    proof {
        lemma_table_names_ascii();
    }
    let mut i: usize = 0;
    while i < db.len()
        invariant
            soc_list_view(db@) == table,
            table == soc_table(),
            forall|k: int| 0 <= k < table.len() ==> is_ascii_text(#[trigger] table[k].name),
            query@ == strip_separators(lowered@),
            i <= db@.len(),
            first_soc_match(query@, table, 0) == first_soc_match(query@, table, i as nat),
        decreases db@.len() - i,
    {
        assert(table[i as int] == db@[i as int]@);
        assert(is_ascii_text(table[i as int].name));
        let entry = entry_key_of(db[i].name.as_str());
        if contains(&query, &entry) || contains(&entry, &query) {
            return found_result(&db[i]);
        }
        i = i + 1;
    }
    not_found_result(soc_name)
}

/// Looks a chip up by name: lowercases it, then searches the database.
fn check_soc(soc_name: &str) -> (r: CompatResult)
    ensures
        r@ == soc_check(soc_name@),
        is_ascii_text(soc_name@) ==> r@ == soc_check_lowered(soc_name@, ascii_lower(soc_name@)),
{
    let lowered = to_lowercase(soc_name);
    check_soc_lowercased(soc_name, lowered.as_str())
}

/// Check camera compatibility by chip (SoC) name.
pub fn check_by_soc(soc_name: &str) -> (r: CompatResult)
    ensures
        r@ == soc_check(soc_name@),
        is_ascii_text(soc_name@) ==> r@ == soc_check_lowered(soc_name@, ascii_lower(soc_name@)),
{
    check_soc(soc_name)
}

// ── Lookup by companion app ─────────────────────────────────────────

/// The answer for an app name `app_name` whose lower case is `l`, by the
/// camera platforms that app is known to serve.
pub open spec fn app_check_lowered(app_name: Seq<char>, l: Seq<char>) -> CompatFacts {
    if has_substring(l, "cloudedge"@) || has_substring(l, "meari"@) || has_substring(l, "ppstrong"@) {
        CompatFacts {
            verdict: Verdict::Incompatible,
            reason: "CloudEdge/Meari cameras use LiteOS firmware, proprietary P2P protocol, no RTSP, and are typically sealed shut. They are designed to prevent user access to their own video. Do not buy."@,
            soc: None,
            recommendations: seq![
                "Buy a Wyze Cam v3 instead ($15, Thingino proven, SD card flash)"@,
                "Or TP-Link Tapo C100 ($15, check SoC before flashing)"@,
            ],
        }
    } else if has_substring(l, "wyze"@) {
        CompatFacts {
            verdict: Verdict::PossiblyCompatible,
            reason: "Wyze cameras use Ingenic SoCs. v2 and v3 are fully supported by Thingino. v4 has secure boot (incompatible without chip swap). Check the model."@,
            soc: None,
            recommendations: seq![
                "Wyze Cam v3: COMPATIBLE (T31, SD card flash, Thingino)"@,
                "Wyze Cam v2: COMPATIBLE (T20, SD card flash, Thingino)"@,
                "Wyze Cam v4: INCOMPATIBLE (T40 secure boot, chip swap needed)"@,
            ],
        }
    } else if has_substring(l, "tapo"@) || has_substring(l, "tp-link"@) {
        CompatFacts {
            verdict: Verdict::PossiblyCompatible,
            reason: "TP-Link Tapo cameras vary by model. Some use flashable SoCs, some don't. Check the FCC internal photos for the specific SoC."@,
            soc: None,
            recommendations: seq![
                "Look up FCC ID at fcc.report, find internal photos, identify SoC"@,
                "Cross-reference SoC with OpenIPC/Thingino supported hardware list"@,
            ],
        }
    } else if has_substring(l, "icsee"@) || has_substring(l, "xmeye"@) {
        CompatFacts {
            verdict: Verdict::PossiblyCompatible,
            reason: "iCSee/XMEye cameras often use HiSilicon SoCs with OpenIPC support. Many expose RTSP. Check the specific SoC — Hi3516EV200 is well supported."@,
            soc: None,
            recommendations: seq!["Check FCC ID for SoC"@, "HiSilicon Hi3516EV200/300 = likely compatible"@],
        }
    } else if has_substring(l, "tuya"@) || has_substring(l, "smart life"@) {
        CompatFacts {
            verdict: Verdict::PossiblyCompatible,
            reason: "Tuya cameras use various SoCs. Some are flashable, some aren't. The Tuya platform itself is cloud-dependent but the hardware varies."@,
            soc: None,
            recommendations: seq![
                "Check FCC ID for SoC before buying"@,
                "Ingenic or HiSilicon SoCs = likely flashable"@,
                "Realtek or proprietary SoCs = likely not"@,
            ],
        }
    } else {
        CompatFacts {
            verdict: Verdict::Unknown,
            reason: "Unknown app '"@ + app_name + "'. Check the SoC via FCC internal photos."@,
            soc: None,
            recommendations: seq![
                "Find the FCC ID on the camera label"@,
                "Look up internal photos at fcc.report"@,
                "Identify the SoC chip markings"@,
                "Check against OpenIPC/Thingino supported hardware"@,
            ],
        }
    }
}

/// The answer for an app name.
pub open spec fn app_check(app_name: Seq<char>) -> CompatFacts {
    app_check_lowered(app_name, lowercase(app_name))
}

/// Whether `pattern` occurs in the (lowercased) app name.
fn mentions(lower: &Vec<char>, pattern: &str) -> (b: bool)
    ensures
        b == has_substring(lower@, pattern@),
{
    let p = chars_of(pattern);
    contains(lower, &p)
}

/// A result with no chip entry.
fn platform_result(verdict: Verdict, reason: &str, recommendations: Vec<String>) -> (r: CompatResult)
    ensures
        r@ == (CompatFacts {
            verdict,
            reason: reason@,
            soc: None,
            recommendations: strings_view(recommendations@),
        }),
{
    CompatResult { verdict, reason: String::from_str(reason), soc: None, recommendations }
}

/// Looks a camera up by the name `app_name` of its companion app, given
/// in lower case as `lowered`.
pub fn check_app_lowercased(app_name: &str, lowered: &str) -> (r: CompatResult)
    ensures
        r@ == app_check_lowered(app_name@, lowered@),
{
    let lower = chars_of(lowered);
    let mut recs: Vec<String> = Vec::new();
    if mentions(&lower, "cloudedge") || mentions(&lower, "meari") || mentions(&lower, "ppstrong") {
        push_text(&mut recs, "Buy a Wyze Cam v3 instead ($15, Thingino proven, SD card flash)");
        push_text(&mut recs, "Or TP-Link Tapo C100 ($15, check SoC before flashing)");
        assert(strings_view(recs@) =~= seq![
            "Buy a Wyze Cam v3 instead ($15, Thingino proven, SD card flash)"@,
            "Or TP-Link Tapo C100 ($15, check SoC before flashing)"@,
        ]);
        return platform_result(
            Verdict::Incompatible,
            "CloudEdge/Meari cameras use LiteOS firmware, proprietary P2P protocol, no RTSP, and are typically sealed shut. They are designed to prevent user access to their own video. Do not buy.",
            recs,
        );
    }
    if mentions(&lower, "wyze") {
        push_text(&mut recs, "Wyze Cam v3: COMPATIBLE (T31, SD card flash, Thingino)");
        push_text(&mut recs, "Wyze Cam v2: COMPATIBLE (T20, SD card flash, Thingino)");
        push_text(&mut recs, "Wyze Cam v4: INCOMPATIBLE (T40 secure boot, chip swap needed)");
        assert(strings_view(recs@) =~= seq![
            "Wyze Cam v3: COMPATIBLE (T31, SD card flash, Thingino)"@,
            "Wyze Cam v2: COMPATIBLE (T20, SD card flash, Thingino)"@,
            "Wyze Cam v4: INCOMPATIBLE (T40 secure boot, chip swap needed)"@,
        ]);
        return platform_result(
            Verdict::PossiblyCompatible,
            "Wyze cameras use Ingenic SoCs. v2 and v3 are fully supported by Thingino. v4 has secure boot (incompatible without chip swap). Check the model.",
            recs,
        );
    }
    if mentions(&lower, "tapo") || mentions(&lower, "tp-link") {
        push_text(&mut recs, "Look up FCC ID at fcc.report, find internal photos, identify SoC");
        push_text(&mut recs, "Cross-reference SoC with OpenIPC/Thingino supported hardware list");
        assert(strings_view(recs@) =~= seq![
            "Look up FCC ID at fcc.report, find internal photos, identify SoC"@,
            "Cross-reference SoC with OpenIPC/Thingino supported hardware list"@,
        ]);
        return platform_result(
            Verdict::PossiblyCompatible,
            "TP-Link Tapo cameras vary by model. Some use flashable SoCs, some don't. Check the FCC internal photos for the specific SoC.",
            recs,
        );
    }
    if mentions(&lower, "icsee") || mentions(&lower, "xmeye") {
        push_text(&mut recs, "Check FCC ID for SoC");
        push_text(&mut recs, "HiSilicon Hi3516EV200/300 = likely compatible");
        assert(strings_view(recs@) =~= seq![
            "Check FCC ID for SoC"@,
            "HiSilicon Hi3516EV200/300 = likely compatible"@,
        ]);
        return platform_result(
            Verdict::PossiblyCompatible,
            "iCSee/XMEye cameras often use HiSilicon SoCs with OpenIPC support. Many expose RTSP. Check the specific SoC — Hi3516EV200 is well supported.",
            recs,
        );
    }
    if mentions(&lower, "tuya") || mentions(&lower, "smart life") {
        push_text(&mut recs, "Check FCC ID for SoC before buying");
        push_text(&mut recs, "Ingenic or HiSilicon SoCs = likely flashable");
        push_text(&mut recs, "Realtek or proprietary SoCs = likely not");
        assert(strings_view(recs@) =~= seq![
            "Check FCC ID for SoC before buying"@,
            "Ingenic or HiSilicon SoCs = likely flashable"@,
            "Realtek or proprietary SoCs = likely not"@,
        ]);
        return platform_result(
            Verdict::PossiblyCompatible,
            "Tuya cameras use various SoCs. Some are flashable, some aren't. The Tuya platform itself is cloud-dependent but the hardware varies.",
            recs,
        );
    }
    let mut reason = String::from_str("Unknown app '");
    reason.append(app_name);
    reason.append("'. Check the SoC via FCC internal photos.");
    push_text(&mut recs, "Find the FCC ID on the camera label");
    push_text(&mut recs, "Look up internal photos at fcc.report");
    push_text(&mut recs, "Identify the SoC chip markings");
    push_text(&mut recs, "Check against OpenIPC/Thingino supported hardware");
    assert(strings_view(recs@) =~= seq![
        "Find the FCC ID on the camera label"@,
        "Look up internal photos at fcc.report"@,
        "Identify the SoC chip markings"@,
        "Check against OpenIPC/Thingino supported hardware"@,
    ]);
    CompatResult { verdict: Verdict::Unknown, reason, soc: None, recommendations: recs }
}

/// Looks a camera up by the name of its companion app: lowercases it,
/// then matches it against the known platforms.
fn check_app(app_name: &str) -> (r: CompatResult)
    ensures
        r@ == app_check(app_name@),
        is_ascii_text(app_name@) ==> r@ == app_check_lowered(app_name@, ascii_lower(app_name@)),
{
    let lowered = to_lowercase(app_name);
    check_app_lowercased(app_name, lowered.as_str())
}

/// Check camera compatibility by the name of the camera's companion app.
pub fn check_by_app(app_name: &str) -> (r: CompatResult)
    ensures
        r@ == app_check(app_name@),
        is_ascii_text(app_name@) ==> r@ == app_check_lowered(app_name@, ascii_lower(app_name@)),
{
    check_app(app_name)
}

// ── Human-readable report ───────────────────────────────────────────

/// The symbol shown for a verdict.
pub open spec fn verdict_icon(v: Verdict) -> Seq<char> {
    match v {
        Verdict::Compatible => "✅"@,
        Verdict::PossiblyCompatible => "⚠️"@,
        Verdict::Incompatible => "❌"@,
        Verdict::Unknown => "❓"@,
    }
}

/// The headline shown for a verdict.
pub open spec fn verdict_label(v: Verdict) -> Seq<char> {
    match v {
        Verdict::Compatible => "COMPATIBLE — flash it!"@,
        Verdict::PossiblyCompatible => "POSSIBLY COMPATIBLE — check details"@,
        Verdict::Incompatible => "INCOMPATIBLE — do not buy"@,
        Verdict::Unknown => "UNKNOWN — need more info"@,
    }
}

/// The name under which a support status is reported.
pub open spec fn support_status_name(s: SupportStatus) -> Seq<char> {
    match s {
        SupportStatus::Supported => "Supported"@,
        SupportStatus::Experimental => "Experimental"@,
        SupportStatus::Planned => "Planned"@,
        SupportStatus::Unsupported => "Unsupported"@,
    }
}

/// The chip section of a report.
pub open spec fn soc_report_lines(f: SocFacts) -> Seq<Seq<char>> {
    seq![
        Seq::<char>::empty(),
        "SoC: "@ + f.vendor + " "@ + f.name + " ("@ + f.architecture + ")"@,
        "OpenIPC: "@ + support_status_name(f.openipc),
        "Thingino: "@ + support_status_name(f.thingino),
        "Flash: "@ + flash_method_name(f.flash_method),
        "NPU: "@ + (if f.has_npu { "yes"@ } else { "no"@ }),
    ]
}

/// The recommendation section of a report (empty when there are none).
pub open spec fn recommendation_lines(recs: Seq<Seq<char>>) -> Seq<Seq<char>> {
    if recs.len() == 0 {
        Seq::empty()
    } else {
        seq![Seq::<char>::empty(), "Recommendations:"@] + recs.map_values(
            |r: Seq<char>| "  → "@ + r,
        )
    }
}

/// The lines of the human-readable report of a compatibility answer.
pub open spec fn report_text(r: CompatFacts) -> Seq<Seq<char>> {
    seq![verdict_icon(r.verdict) + " "@ + verdict_label(r.verdict), Seq::<char>::empty(), r.reason]
        + match r.soc {
        Some(f) => soc_report_lines(f),
        None => Seq::empty(),
    } + recommendation_lines(r.recommendations)
}

fn verdict_icon_text(v: Verdict) -> (t: &'static str)
    ensures
        t@ == verdict_icon(v),
{
    match v {
        Verdict::Compatible => "✅",
        Verdict::PossiblyCompatible => "⚠️",
        Verdict::Incompatible => "❌",
        Verdict::Unknown => "❓",
    }
}

fn verdict_label_text(v: Verdict) -> (t: &'static str)
    ensures
        t@ == verdict_label(v),
{
    match v {
        Verdict::Compatible => "COMPATIBLE — flash it!",
        Verdict::PossiblyCompatible => "POSSIBLY COMPATIBLE — check details",
        Verdict::Incompatible => "INCOMPATIBLE — do not buy",
        Verdict::Unknown => "UNKNOWN — need more info",
    }
}

fn support_status_text(s: SupportStatus) -> (t: &'static str)
    ensures
        t@ == support_status_name(s),
{
    match s {
        SupportStatus::Supported => "Supported",
        SupportStatus::Experimental => "Experimental",
        SupportStatus::Planned => "Planned",
        SupportStatus::Unsupported => "Unsupported",
    }
}

/// A line made of a prefix and a text.
fn labelled(prefix: &str, text: &str) -> (r: String)
    ensures
        r@ == prefix@ + text@,
{
    let mut r = String::from_str(prefix);
    r.append(text);
    r
}

/// The human-readable report of a compatibility answer, line by line.
pub fn report_lines(result: &CompatResult) -> (lines: Vec<String>)
    ensures
        strings_view(lines@) == report_text(result@),
{
    let mut lines: Vec<String> = Vec::new();
    let mut head = String::from_str(verdict_icon_text(result.verdict));
    head.append(" ");
    head.append(verdict_label_text(result.verdict));
    lines.push(head);
    lines.push(String::new());
    lines.push(result.reason.clone());
    let ghost part1 = strings_view(lines@);
    assert(part1 =~= seq![
        verdict_icon(result.verdict) + " "@ + verdict_label(result.verdict),
        Seq::<char>::empty(),
        result.reason@,
    ]);
    match &result.soc {
        Some(soc) => {
            lines.push(String::new());
            let mut l = String::from_str("SoC: ");
            l.append(soc.vendor.as_str());
            l.append(" ");
            l.append(soc.name.as_str());
            l.append(" (");
            l.append(soc.architecture.as_str());
            l.append(")");
            lines.push(l);
            lines.push(labelled("OpenIPC: ", support_status_text(soc.openipc)));
            lines.push(labelled("Thingino: ", support_status_text(soc.thingino)));
            lines.push(labelled("Flash: ", flash_method_text(soc.flash_method)));
            lines.push(labelled("NPU: ", if soc.has_npu { "yes" } else { "no" }));
            assert(strings_view(lines@) =~= part1 + soc_report_lines(soc@));
        },
        None => {
            assert(strings_view(lines@) =~= part1 + Seq::<Seq<char>>::empty());
        },
    }
    let ghost part2 = strings_view(lines@);
    if result.recommendations.len() > 0 {
        lines.push(String::new());
        lines.push(String::from_str("Recommendations:"));
        let ghost recs = strings_view(result.recommendations@);
        let mut i: usize = 0;
        while i < result.recommendations.len()
            invariant
                recs == strings_view(result.recommendations@),
                i <= result.recommendations@.len(),
                strings_view(lines@) == part2 + seq![Seq::<char>::empty(), "Recommendations:"@]
                    + recs.take(i as int).map_values(|r: Seq<char>| "  → "@ + r),
            decreases result.recommendations@.len() - i,
        {
            let ghost before = strings_view(lines@);
            let line = labelled("  → ", result.recommendations[i].as_str());
            assert(recs[i as int] == result.recommendations@[i as int]@);
            lines.push(line);
            assert(strings_view(lines@) =~= before.push(line@));
            assert(recs.take(i + 1).map_values(|r: Seq<char>| "  → "@ + r) =~= recs.take(
                i as int,
            ).map_values(|r: Seq<char>| "  → "@ + r).push("  → "@ + recs[i as int]));
            assert(strings_view(lines@) =~= part2 + seq![Seq::<char>::empty(), "Recommendations:"@]
                + recs.take(i + 1).map_values(|r: Seq<char>| "  → "@ + r));
            i = i + 1;
        }
        assert(recs.take(i as int) =~= recs);
    } else {
        assert(strings_view(lines@) =~= part2 + Seq::<Seq<char>>::empty());
    }
    lines
}

// ── Laws ───────────────────────────────────────────────────────────

/// Law: the app check is case-insensitive — two app names with the same
/// lowercase form get the same verdict, chip and recommendations.
pub proof fn lemma_app_check_case_insensitive(a: Seq<char>, b: Seq<char>)
    requires
        lowercase(a) == lowercase(b),
    ensures
        app_check(a).verdict == app_check(b).verdict,
        app_check(a).soc == app_check(b).soc,
        app_check(a).recommendations == app_check(b).recommendations,
{
}

/// Law: the chip lookup ignores case, `-`, `_` and spaces — two names with
/// the same normalised form find the same entry and verdict.
pub proof fn lemma_soc_check_normalised(a: Seq<char>, b: Seq<char>)
    requires
        soc_key(a) == soc_key(b),
    ensures
        soc_check(a).verdict == soc_check(b).verdict,
        soc_check(a).soc == soc_check(b).soc,
{
}

/// Law: a chip is compatible exactly when it can be flashed from an SD
/// card and one of the firmware projects supports it; it is incompatible
/// exactly when it needs a chip swap or has no flash method.
pub proof fn lemma_soc_verdict_meaning(f: SocFacts)
    ensures
        (soc_verdict(f) == Verdict::Compatible) <==> (f.flash_method == FlashMethod::SdCard && (
        f.openipc == SupportStatus::Supported || f.thingino == SupportStatus::Supported)),
        (soc_verdict(f) == Verdict::Incompatible) <==> (f.flash_method == FlashMethod::ChipSwap
            || f.flash_method == FlashMethod::NoMethod),
{
}

/// The normalised names of the database chips, in table order.
spec fn table_keys() -> Seq<Seq<char>> {
    seq![
        seq!['t', '2', '0'],
        seq!['t', '2', '1'],
        seq!['t', '3', '1'],
        seq!['t', '4', '0'],
        seq!['h', 'i', '3', '5', '1', '6', 'e', 'v', '2', '0', '0'],
        seq!['h', 'i', '3', '5', '1', '8', 'e', 'v', '2', '0', '0'],
        seq!['h', 'i', '3', '5', '1', '8', 'e', 'v', '3', '0', '0'],
        seq!['s', 's', 'c', '3', '3', '8', 'q'],
        seq!['s', 's', 'd', '2', '0', '2'],
        seq!['a', 'k', '3', '9', '1', '8', 'e', 'v', '3', '0', '0'],
    ]
}

proof fn lemma_table_keys()
    ensures
        table_keys().len() == soc_table().len(),
        forall|k: int|
            0 <= k < soc_table().len() ==> entry_key(#[trigger] soc_table()[k].name) == table_keys()[k],
{
    reveal_strlit("T20");
    reveal_strlit("T21");
    reveal_strlit("T31");
    reveal_strlit("T40");
    reveal_strlit("Hi3516EV200");
    reveal_strlit("Hi3518EV200");
    reveal_strlit("Hi3518EV300");
    reveal_strlit("SSC338Q");
    reveal_strlit("SSD202");
    reveal_strlit("AK3918EV300");
    reveal_with_fuel(strip_separators, 12);
    let t = soc_table();
    let keys = table_keys();
    assert(entry_key(t[0].name) =~= keys[0]);
    assert(entry_key(t[1].name) =~= keys[1]);
    assert(entry_key(t[2].name) =~= keys[2]);
    assert(entry_key(t[3].name) =~= keys[3]);
    assert(entry_key(t[4].name) =~= keys[4]);
    assert(entry_key(t[5].name) =~= keys[5]);
    assert(entry_key(t[6].name) =~= keys[6]);
    assert(entry_key(t[7].name) =~= keys[7]);
    assert(entry_key(t[8].name) =~= keys[8]);
    assert(entry_key(t[9].name) =~= keys[9]);
}

/// Two strings of one length occur in each other only when equal.
proof fn lemma_no_occurrence_same_length(hay: Seq<char>, needle: Seq<char>)
    requires
        hay.len() == needle.len(),
        hay != needle,
    ensures
        !has_substring(hay, needle),
{
    assert(hay.subrange(0, hay.len() as int) =~= hay);
}

/// A string with a character that `hay` lacks does not occur in `hay`.
proof fn lemma_no_occurrence_missing_char(hay: Seq<char>, needle: Seq<char>, m: int)
    requires
        0 <= m < needle.len(),
        forall|x: int| 0 <= x < hay.len() ==> hay[x] != needle[m],
    ensures
        !has_substring(hay, needle),
{
    assert forall|i: int| !crate::text::occurs_at(hay, needle, i) by {
        if crate::text::occurs_at(hay, needle, i) {
            assert(hay.subrange(i, i + needle.len())[m] == hay[i + m]);
        }
    }
}

/// No database chip's normalised name matches an earlier entry.
proof fn lemma_keys_apart(j: int, k: int)
    requires
        0 <= j < k < soc_table().len(),
    ensures
        !soc_name_matches(entry_key(soc_table()[k].name), soc_table()[j]),
{
    lemma_table_keys();
    let kj = table_keys()[j];
    let kk = table_keys()[k];
    assert(entry_key(soc_table()[j].name) == kj);
    assert(entry_key(soc_table()[k].name) == kk);
    if k <= 3 || (4 <= j && j <= 6 && (k <= 6 || k == 9)) {
        assert(kj[1] != kk[1] || kj[2] != kk[2] || kj[5] != kk[5] || kj[8] != kk[8]
            || kj[0] != kk[0]);
        lemma_no_occurrence_same_length(kj, kk);
        lemma_no_occurrence_same_length(kk, kj);
    } else if j <= 3 {
        lemma_no_occurrence_missing_char(kk, kj, 0);
    } else if k == 7 {
        lemma_no_occurrence_missing_char(kj, kk, 6);
    } else if k == 8 {
        if j == 7 {
            lemma_no_occurrence_missing_char(kj, kk, 2);
        } else {
            lemma_no_occurrence_missing_char(kj, kk, 0);
        }
    } else if j == 7 {
        lemma_no_occurrence_missing_char(kk, kj, 6);
    } else {
        lemma_no_occurrence_missing_char(kk, kj, 0);
    }
}

/// The first match at or after `i` is `k` when `k` matches and nothing
/// between them does.
proof fn lemma_first_soc_match_is(query_key: Seq<char>, table: Seq<SocFacts>, i: nat, k: nat)
    requires
        i <= k < table.len(),
        soc_name_matches(query_key, table[k as int]),
        forall|j: int| i <= j < k ==> !soc_name_matches(query_key, #[trigger] table[j]),
    ensures
        first_soc_match(query_key, table, i) == Some(k),
    decreases k - i,
{
    if i < k {
        assert(!soc_name_matches(query_key, table[i as int]));
        lemma_first_soc_match_is(query_key, table, i + 1, k);
    }
}

/// Law: every chip in the database is recognised by its own name, in any
/// letter case and with or without separators: a query whose normalised
/// form is that of a database chip is answered with that very entry (never
/// an earlier one), and its verdict follows that entry's facts.
pub proof fn lemma_database_chips_recognised(k: nat, name: Seq<char>, lowered: Seq<char>)
    requires
        k < soc_table().len(),
        strip_separators(lowered) == entry_key(soc_table()[k as int].name),
    ensures
        soc_check_lowered(name, lowered) == soc_found(soc_table()[k as int]),
        soc_check_lowered(name, lowered).verdict == soc_verdict(soc_table()[k as int]),
{
    let key = strip_separators(lowered);
    assert(key.subrange(0, key.len() as int) =~= key);
    assert(crate::text::occurs_at(key, key, 0));
    assert forall|j: int| 0 <= j < k implies !soc_name_matches(key, #[trigger] soc_table()[j]) by {
        lemma_keys_apart(j, k as int);
    }
    lemma_first_soc_match_is(key, soc_table(), 0, k);
}

/// ASCII lower case leaves lower-case ASCII text unchanged.
proof fn lemma_ascii_lower_idempotent(s: Seq<char>)
    ensures
        ascii_lower(ascii_lower(s)) == ascii_lower(s),
        is_ascii_text(s) ==> is_ascii_text(ascii_lower(s)),
{
    assert(ascii_lower(ascii_lower(s)) =~= ascii_lower(s));
}

/// Law: a database chip looked up by its name as stored, or by that name
/// in lower case, is answered with that very entry. (The names are ASCII,
/// so the lookup lowercases them the ASCII way.)
pub proof fn lemma_database_names_find_themselves(k: nat)
    requires
        k < soc_table().len(),
    ensures
        is_ascii_text(soc_table()[k as int].name),
        is_ascii_text(ascii_lower(soc_table()[k as int].name)),
        soc_check_lowered(soc_table()[k as int].name, ascii_lower(soc_table()[k as int].name))
            == soc_found(soc_table()[k as int]),
        soc_check_lowered(
            ascii_lower(soc_table()[k as int].name),
            ascii_lower(ascii_lower(soc_table()[k as int].name)),
        ) == soc_found(soc_table()[k as int]),
{
    let n = soc_table()[k as int].name;
    lemma_table_names_ascii();
    lemma_ascii_lower_idempotent(n);
    lemma_database_chips_recognised(k, n, ascii_lower(n));
    lemma_database_chips_recognised(k, ascii_lower(n), ascii_lower(ascii_lower(n)));
}

/// Law: a chip query is answered with database entry `k` when its
/// normalised form and that chip's normalised name contain one another
/// (either way round) and no earlier entry is so related to it.
pub proof fn lemma_soc_query_related_to_entry(k: nat, name: Seq<char>, lowered: Seq<char>)
    requires
        k < soc_table().len(),
        has_substring(entry_key(soc_table()[k as int].name), strip_separators(lowered))
            || has_substring(strip_separators(lowered), entry_key(soc_table()[k as int].name)),
        forall|j: int|
            0 <= j < k ==> !has_substring(
                entry_key(#[trigger] soc_table()[j].name),
                strip_separators(lowered),
            ) && !has_substring(strip_separators(lowered), entry_key(soc_table()[j].name)),
    ensures
        soc_check_lowered(name, lowered) == soc_found(soc_table()[k as int]),
{
    let key = strip_separators(lowered);
    assert forall|j: int| 0 <= j < k implies !soc_name_matches(key, #[trigger] soc_table()[j]) by {
        assert(!has_substring(entry_key(soc_table()[j].name), key));
    }
    lemma_first_soc_match_is(key, soc_table(), 0, k);
}

/// Law: a chip query whose normalised form neither contains nor is
/// contained in any database chip's normalised name is answered "not in
/// database", with no chip and an unknown verdict.
pub proof fn lemma_soc_query_unrelated(name: Seq<char>, lowered: Seq<char>)
    requires
        forall|j: int|
            0 <= j < soc_table().len() ==> !has_substring(
                entry_key(#[trigger] soc_table()[j].name),
                strip_separators(lowered),
            ) && !has_substring(strip_separators(lowered), entry_key(soc_table()[j].name)),
    ensures
        soc_check_lowered(name, lowered).soc is None,
        soc_check_lowered(name, lowered).verdict == Verdict::Unknown,
{
    let key = strip_separators(lowered);
    lemma_first_soc_match_none(key, soc_table(), 0);
}

proof fn lemma_first_soc_match_none(query_key: Seq<char>, table: Seq<SocFacts>, i: nat)
    requires
        forall|j: int|
            i <= j < table.len() ==> !has_substring(entry_key(#[trigger] table[j].name), query_key)
                && !has_substring(query_key, entry_key(table[j].name)),
    ensures
        first_soc_match(query_key, table, i) is None,
    decreases table.len() - i,
{
    if i < table.len() {
        assert(!has_substring(entry_key(table[i as int].name), query_key));
        lemma_first_soc_match_none(query_key, table, i + 1);
    }
}

/// Law: the platform an app name is taken for, by the keywords its lower
/// case `l` contains, checked in this order: CloudEdge, Meari or PPStrong
/// apps are incompatible; Wyze, Tapo / TP-Link, iCSee / XMEye and Tuya /
/// Smart Life apps are possibly compatible; any other app is unknown. No
/// app answer names a chip, and the number of recommendations is that of
/// the platform's advice.
pub proof fn lemma_app_platforms(app_name: Seq<char>, l: Seq<char>)
    ensures
        ({
            let r = app_check_lowered(app_name, l);
            let cloud = has_substring(l, "cloudedge"@) || has_substring(l, "meari"@)
                || has_substring(l, "ppstrong"@);
            let wyze = has_substring(l, "wyze"@);
            let tapo = has_substring(l, "tapo"@) || has_substring(l, "tp-link"@);
            let xm = has_substring(l, "icsee"@) || has_substring(l, "xmeye"@);
            let tuya = has_substring(l, "tuya"@) || has_substring(l, "smart life"@);
            &&& r.soc is None
            &&& cloud ==> r.verdict == Verdict::Incompatible && r.recommendations.len() == 2
            &&& !cloud && wyze ==> r.verdict == Verdict::PossiblyCompatible
                && r.recommendations.len() == 3
            &&& !cloud && !wyze && tapo ==> r.verdict == Verdict::PossiblyCompatible
                && r.recommendations.len() == 2
            &&& !cloud && !wyze && !tapo && xm ==> r.verdict == Verdict::PossiblyCompatible
                && r.recommendations.len() == 2
            &&& !cloud && !wyze && !tapo && !xm && tuya ==> r.verdict
                == Verdict::PossiblyCompatible && r.recommendations.len() == 3
            &&& !cloud && !wyze && !tapo && !xm && !tuya ==> r.verdict == Verdict::Unknown
                && r.recommendations.len() == 4
        }),
{
}

/// Law: the chip section of a report gives the chip's firmware support
/// under its own project: the line after the chip's name reads "OpenIPC: "
/// followed by the OpenIPC status, and the next one "Thingino: " followed
/// by the Thingino status.
pub proof fn lemma_report_support_lines(r: CompatFacts, f: SocFacts)
    requires
        r.soc == Some(f),
    ensures
        report_text(r)[4] == "SoC: "@ + f.vendor + " "@ + f.name + " ("@ + f.architecture + ")"@,
        f.openipc == SupportStatus::Supported ==> report_text(r)[5] == "OpenIPC: Supported"@,
        f.openipc == SupportStatus::Experimental ==> report_text(r)[5] == "OpenIPC: Experimental"@,
        f.openipc == SupportStatus::Planned ==> report_text(r)[5] == "OpenIPC: Planned"@,
        f.openipc == SupportStatus::Unsupported ==> report_text(r)[5] == "OpenIPC: Unsupported"@,
        f.thingino == SupportStatus::Supported ==> report_text(r)[6] == "Thingino: Supported"@,
        f.thingino == SupportStatus::Experimental ==> report_text(r)[6]
            == "Thingino: Experimental"@,
        f.thingino == SupportStatus::Planned ==> report_text(r)[6] == "Thingino: Planned"@,
        f.thingino == SupportStatus::Unsupported ==> report_text(r)[6] == "Thingino: Unsupported"@,
{
    reveal_strlit("OpenIPC: ");
    reveal_strlit("Thingino: ");
    reveal_strlit("Supported");
    reveal_strlit("Experimental");
    reveal_strlit("Planned");
    reveal_strlit("Unsupported");
    reveal_strlit("OpenIPC: Supported");
    reveal_strlit("OpenIPC: Experimental");
    reveal_strlit("OpenIPC: Planned");
    reveal_strlit("OpenIPC: Unsupported");
    reveal_strlit("Thingino: Supported");
    reveal_strlit("Thingino: Experimental");
    reveal_strlit("Thingino: Planned");
    reveal_strlit("Thingino: Unsupported");
    let head = seq![
        verdict_icon(r.verdict) + " "@ + verdict_label(r.verdict),
        Seq::<char>::empty(),
        r.reason,
    ];
    let t = head + soc_report_lines(f) + recommendation_lines(r.recommendations);
    assert(report_text(r) == t);
    assert(t[4] == soc_report_lines(f)[1]);
    assert(t[5] == soc_report_lines(f)[2]);
    assert(t[6] == soc_report_lines(f)[3]);
    assert("OpenIPC: "@ + "Supported"@ =~= "OpenIPC: Supported"@);
    assert("OpenIPC: "@ + "Experimental"@ =~= "OpenIPC: Experimental"@);
    assert("OpenIPC: "@ + "Planned"@ =~= "OpenIPC: Planned"@);
    assert("OpenIPC: "@ + "Unsupported"@ =~= "OpenIPC: Unsupported"@);
    assert("Thingino: "@ + "Supported"@ =~= "Thingino: Supported"@);
    assert("Thingino: "@ + "Experimental"@ =~= "Thingino: Experimental"@);
    assert("Thingino: "@ + "Planned"@ =~= "Thingino: Planned"@);
    assert("Thingino: "@ + "Unsupported"@ =~= "Thingino: Unsupported"@);
}

/// Law: the layout of a report. It opens with the verdict's headline, an
/// empty line and the reason; then, when a chip was found, its section of
/// six lines; then, when there are recommendations, an empty line, a
/// "Recommendations:" line and one arrowed line per recommendation, in
/// order.
pub proof fn lemma_report_layout(r: CompatFacts)
    ensures
        r.verdict == Verdict::Compatible ==> report_text(r)[0] == "✅ COMPATIBLE — flash it!"@,
        r.verdict == Verdict::PossiblyCompatible ==> report_text(r)[0] == "⚠️ POSSIBLY COMPATIBLE — check details"@,
        r.verdict == Verdict::Incompatible ==> report_text(r)[0] == "❌ INCOMPATIBLE — do not buy"@,
        r.verdict == Verdict::Unknown ==> report_text(r)[0] == "❓ UNKNOWN — need more info"@,
        report_text(r)[1] == Seq::<char>::empty(),
        report_text(r)[2] == r.reason,
        report_text(r).len() == 3 + (if r.soc is Some { 6int } else { 0int }) + (if r.recommendations.len() > 0 {
            2 + r.recommendations.len() as int
        } else {
            0int
        }),
        forall|i: int|
            0 <= i < r.recommendations.len() ==> report_text(r)[report_text(r).len()
                - r.recommendations.len() + i] == "  → "@ + #[trigger] r.recommendations[i],
{
    reveal_strlit(" ");
    reveal_strlit("✅");
    reveal_strlit("COMPATIBLE — flash it!");
    reveal_strlit("✅ COMPATIBLE — flash it!");
    assert("✅"@ + " "@ + "COMPATIBLE — flash it!"@ =~= "✅ COMPATIBLE — flash it!"@);
    reveal_strlit("⚠️");
    reveal_strlit("POSSIBLY COMPATIBLE — check details");
    reveal_strlit("⚠️ POSSIBLY COMPATIBLE — check details");
    assert("⚠️"@ + " "@ + "POSSIBLY COMPATIBLE — check details"@ =~= "⚠️ POSSIBLY COMPATIBLE — check details"@);
    reveal_strlit("❌");
    reveal_strlit("INCOMPATIBLE — do not buy");
    reveal_strlit("❌ INCOMPATIBLE — do not buy");
    assert("❌"@ + " "@ + "INCOMPATIBLE — do not buy"@ =~= "❌ INCOMPATIBLE — do not buy"@);
    reveal_strlit("❓");
    reveal_strlit("UNKNOWN — need more info");
    reveal_strlit("❓ UNKNOWN — need more info");
    assert("❓"@ + " "@ + "UNKNOWN — need more info"@ =~= "❓ UNKNOWN — need more info"@);
    let head = seq![
        verdict_icon(r.verdict) + " "@ + verdict_label(r.verdict),
        Seq::<char>::empty(),
        r.reason,
    ];
    let mid = match r.soc {
        Some(f) => soc_report_lines(f),
        None => Seq::empty(),
    };
    let recs = recommendation_lines(r.recommendations);
    assert(report_text(r) == head + mid + recs);
    assert((head + mid + recs)[0] == head[0]);
    assert((head + mid + recs)[1] == head[1]);
    assert((head + mid + recs)[2] == head[2]);
    let t = head + mid + recs;
    assert forall|i: int| 0 <= i < r.recommendations.len() implies t[t.len() - r.recommendations.len()
        + i] == "  → "@ + #[trigger] r.recommendations[i] by {
        assert(recs[2 + i] == "  → "@ + r.recommendations[i]);
        assert(t[t.len() - r.recommendations.len() + i] == recs[2 + i]);
    }
}

} // verus!
