//! Engine bookkeeping that does not depend on the image pipeline: the
//! bounded log of pending events and the conversion of raw camera frames
//! to RGB bytes.

use vstd::prelude::*;

verus! {

/// Most events kept while nobody polls; the oldest is dropped first.
pub const EVENT_LOG_CAPACITY: usize = 256;

/// The log after recording `e`: appended, dropping the oldest event when
/// the log is full.
pub open spec fn log_after_push<T>(log: Seq<T>, e: T) -> Seq<T> {
    if log.len() >= EVENT_LOG_CAPACITY {
        log.drop_first().push(e)
    } else {
        log.push(e)
    }
}

/// The log after recording each of `events` in order.
pub open spec fn log_after_all<T>(log: Seq<T>, events: Seq<T>) -> Seq<T>
    decreases events.len(),
{
    if events.len() == 0 {
        log
    } else {
        log_after_push(log_after_all(log, events.drop_last()), events.last())
    }
}

/// The pending events of an engine, oldest first, at most
/// `EVENT_LOG_CAPACITY` of them.
pub struct EventLog<T> {
    events: Vec<T>,
}

impl<T> View for EventLog<T> {
    type V = Seq<T>;

    closed spec fn view(&self) -> Seq<T> {
        self.events@
    }
}

impl<T> EventLog<T> {
    /// The log never holds more than its capacity.
    #[verifier::type_invariant]
    spec fn bounded(&self) -> bool {
        self.events@.len() <= EVENT_LOG_CAPACITY
    }

    /// An empty log.
    pub fn new() -> (l: Self)
        ensures
            l@ == Seq::<T>::empty(),
    {
        EventLog { events: Vec::new() }
    }

    /// Number of pending events.
    pub fn len(&self) -> (n: usize)
        ensures
            n == self@.len(),
            n <= EVENT_LOG_CAPACITY,
    {
        proof {
            use_type_invariant(self);
        }
        self.events.len()
    }

    /// Records an event, dropping the oldest one when the log is full.
    pub fn push(&mut self, e: T)
        ensures
            final(self)@ == log_after_push(old(self)@, e),
            final(self)@.len() <= EVENT_LOG_CAPACITY,
    {
        proof {
            use_type_invariant(&*self);
        }
        let mut events = Vec::new();
        std::mem::swap(&mut events, &mut self.events);
        if events.len() >= EVENT_LOG_CAPACITY {
            events.remove(0);
        }
        events.push(e);
        assert(events@ =~= log_after_push(old(self)@, e));
        self.events = events;
    }

    /// Hands out every pending event, oldest first, leaving the log empty.
    pub fn drain(&mut self) -> (out: Vec<T>)
        ensures
            out@ == old(self)@,
            final(self)@ == Seq::<T>::empty(),
    {
        let mut out = Vec::new();
        std::mem::swap(&mut out, &mut self.events);
        out
    }
}

/// The most recent `EVENT_LOG_CAPACITY` items of `s` (all of them when
/// there are fewer), in order.
pub open spec fn most_recent<T>(s: Seq<T>) -> Seq<T> {
    if s.len() <= EVENT_LOG_CAPACITY {
        s
    } else {
        s.subrange(s.len() - EVENT_LOG_CAPACITY, s.len() as int)
    }
}

/// Law: recording any sequence of events into a log of at most
/// `EVENT_LOG_CAPACITY` events leaves the most recent
/// `EVENT_LOG_CAPACITY` of the old events followed by the new ones (all of
/// them when there are fewer), in order; so the log never holds more than
/// its capacity.
pub proof fn lemma_log_keeps_most_recent<T>(log: Seq<T>, events: Seq<T>)
    requires
        log.len() <= EVENT_LOG_CAPACITY,
    ensures
        log_after_all(log, events) == most_recent(log + events),
        log_after_all(log, events).len() <= EVENT_LOG_CAPACITY,
    decreases events.len(),
{
    if events.len() > 0 {
        let prefix = events.drop_last();
        lemma_log_keeps_most_recent(log, prefix);
        let all = log + events;
        let before_all = log + prefix;
        assert(before_all =~= all.drop_last());
        assert(all.last() == events.last());
        let before = log_after_all(log, prefix);
        if before_all.len() < EVENT_LOG_CAPACITY {
            assert(before.push(events.last()) =~= all);
        } else {
            assert(before.drop_first().push(events.last()) =~= all.subrange(
                all.len() - EVENT_LOG_CAPACITY,
                all.len() as int,
            ));
        }
    }
}

/// Law: recording events into an empty log keeps exactly the most recent
/// `EVENT_LOG_CAPACITY` of them (all of them when there are fewer), in
/// order.
pub proof fn lemma_empty_log_keeps_most_recent<T>(events: Seq<T>)
    ensures
        log_after_all(Seq::<T>::empty(), events) == most_recent(events),
{
    lemma_log_keeps_most_recent(Seq::<T>::empty(), events);
    assert(Seq::<T>::empty() + events =~= events);
}

// ── Pixel conversion ────────────────────────────────────────────────

/// RGB bytes of the first `n` pixels of a BGRA buffer: pixel `i` yields
/// `R, G, B` = bytes `4i+2, 4i+1, 4i` when byte `4i+2` is present, and
/// nothing otherwise.
pub open spec fn bgra_rgb_upto(data: Seq<u8>, n: nat) -> Seq<u8>
    decreases n,
{
    if n == 0 {
        Seq::empty()
    } else {
        let prev = bgra_rgb_upto(data, (n - 1) as nat);
        let base = 4 * (n - 1);
        if base + 2 < data.len() {
            prev.push(data[base + 2]).push(data[base + 1]).push(data[base])
        } else {
            prev
        }
    }
}

/// The raw buffer of a `pixels`-pixel RGB image built from `converted`:
/// the converted bytes when they cover every pixel, otherwise an all-black
/// image of the same size.
pub open spec fn rgb_image_buffer(converted: Seq<u8>, pixels: nat) -> Seq<u8> {
    if converted.len() >= 3 * pixels {
        converted
    } else {
        Seq::new(3 * pixels, |i: int| 0u8)
    }
}

/// An all-black RGB buffer of `pixels` pixels.
fn black_rgb(pixels: usize) -> (rgb: Vec<u8>)
    requires
        3 * pixels <= usize::MAX,
    ensures
        rgb@ == Seq::new(3 * pixels as nat, |i: int| 0u8),
{
    let rgb: Vec<u8> = vec![0u8; 3 * pixels];
    assert(rgb@ =~= Seq::new(3 * pixels as nat, |i: int| 0u8));
    rgb
}

/// Converts a BGRA frame of `width` x `height` pixels to the raw buffer of
/// an RGB image: alpha dropped, and all black when `data` is too short to
/// hold every pixel.
pub fn bgra_to_rgb(data: &[u8], width: u32, height: u32) -> (rgb: Vec<u8>)
    requires
        width * height <= u32::MAX,
        width * height * 4 <= usize::MAX,
    ensures
        rgb@ == rgb_image_buffer(bgra_rgb_upto(data@, (width * height) as nat), (width * height) as nat),
{
    let pixel_count: usize = (width * height) as usize;
    let mut rgb: Vec<u8> = Vec::new();
    let mut i: usize = 0;
    while i < pixel_count
        invariant
            pixel_count == width * height,
            pixel_count * 4 <= usize::MAX,
            i <= pixel_count,
            rgb@ == bgra_rgb_upto(data@, i as nat),
            rgb@.len() <= 3 * i,
        decreases pixel_count - i,
    {
        let base: usize = i * 4;
        if base + 2 < data.len() {
            rgb.push(data[base + 2]);
            rgb.push(data[base + 1]);
            rgb.push(data[base]);
        }
        i = i + 1;
    }
    if rgb.len() >= 3 * pixel_count {
        rgb
    } else {
        black_rgb(pixel_count)
    }
}

/// RGB bytes of a greyscale buffer: each of the first `n` grey values
/// repeated three times.
pub open spec fn gray_rgb_upto(data: Seq<u8>, n: nat) -> Seq<u8>
    decreases n,
{
    if n == 0 {
        Seq::empty()
    } else {
        let g = data[n - 1];
        gray_rgb_upto(data, (n - 1) as nat).push(g).push(g).push(g)
    }
}

/// Converts a greyscale frame of `width` x `height` pixels to the raw
/// buffer of an RGB image: each grey value repeated three times, and all
/// black when `data` holds fewer than `width * height` values.
pub fn gray_to_rgb(data: &[u8], width: u32, height: u32) -> (rgb: Vec<u8>)
    requires
        width * height <= u32::MAX,
        data@.len() * 3 <= usize::MAX,
        width * height * 3 <= usize::MAX,
    ensures
        rgb@ == rgb_image_buffer(
            gray_rgb_upto(
                data@,
                if data@.len() <= width * height {
                    data@.len()
                } else {
                    (width * height) as nat
                },
            ),
            (width * height) as nat,
        ),
{
    let limit: usize = (width * height) as usize;
    let n: usize = if data.len() <= limit {
        data.len()
    } else {
        limit
    };
    let mut rgb: Vec<u8> = Vec::with_capacity(data.len() * 3);
    let mut i: usize = 0;
    while i < n
        invariant
            n <= data@.len(),
            i <= n,
            rgb@ == gray_rgb_upto(data@, i as nat),
            rgb@.len() == 3 * i,
        decreases n - i,
    {
        let g = data[i];
        rgb.push(g);
        rgb.push(g);
        rgb.push(g);
        i = i + 1;
    }
    if rgb.len() >= 3 * limit {
        rgb
    } else {
        black_rgb(limit)
    }
}

/// Law: converting a greyscale frame yields three bytes per pixel used,
/// every one equal to that pixel's grey value.
pub proof fn lemma_gray_rgb_is_replicated(data: Seq<u8>, n: nat)
    requires
        n <= data.len(),
    ensures
        gray_rgb_upto(data, n).len() == 3 * n,
        forall|i: int, c: int|
            0 <= i < n && 0 <= c < 3 ==> #[trigger] gray_rgb_upto(data, n)[3 * i + c] == data[i],
    decreases n,
{
    if n > 0 {
        lemma_gray_rgb_is_replicated(data, (n - 1) as nat);
        let prev = gray_rgb_upto(data, (n - 1) as nat);
        let cur = gray_rgb_upto(data, n);
        assert forall|i: int, c: int| 0 <= i < n && 0 <= c < 3 implies #[trigger] cur[3 * i + c]
            == data[i] by {
            if i < n - 1 {
                assert(cur[3 * i + c] == prev[3 * i + c]);
            }
        }
    }
}

} // verus!
