//! Finding the magic number in what the device sends.
//!
//! After the host has sent the magic number the device echoes it, but bytes
//! of an earlier session may still be on the line. The scanner keeps a cursor
//! into the magic number: a byte equal to the one under the cursor moves the
//! cursor on, any other byte is counted as garbage together with the bytes
//! matched so far, and the cursor goes back to the start. The rejected byte is
//! not looked at again.

use vstd::prelude::*;

verus! {

/// The magic number that host and device exchange: `SerKey01`.
pub const MAGIC_NUMBER: [u8; 8] = [0x53, 0x65, 0x72, 0x4B, 0x65, 0x79, 0x30, 0x31];

/// The length of the magic number.
pub const MAGIC_LEN: usize = 8;

/// The magic number as a sequence.
pub open spec fn magic() -> Seq<u8> {
    MAGIC_NUMBER@
}

/// Where a scan stands: how many bytes of the magic number are matched, and
/// how many bytes were given up as garbage.
pub struct ScanState {
    pub cursor: nat,
    pub garbage: nat,
}

impl ScanState {
    /// The state before any byte.
    pub open spec fn start() -> ScanState {
        ScanState { cursor: 0, garbage: 0 }
    }

    /// The whole magic number is matched.
    pub open spec fn complete(self) -> bool {
        self.cursor >= magic().len()
    }

    /// The state after one more byte. A complete scan takes no more bytes.
    pub open spec fn step(self, byte: u8) -> ScanState {
        if self.complete() {
            self
        } else if byte == magic()[self.cursor as int] {
            ScanState { cursor: self.cursor + 1, garbage: self.garbage }
        } else {
            ScanState { cursor: 0, garbage: self.garbage + self.cursor + 1 }
        }
    }
}

/// The state of a scan that started fresh and was fed `stream`.
pub open spec fn scan(stream: Seq<u8>) -> ScanState
    decreases stream.len(),
{
    if stream.len() == 0 {
        ScanState::start()
    } else {
        scan(stream.drop_last()).step(stream.last())
    }
}

/// What byte `at` of `stream` adds to the garbage count: nothing if it is
/// accepted, else the cursor at that moment and one for the byte itself.
pub open spec fn rejection(stream: Seq<u8>, at: int) -> nat {
    let before = scan(stream.take(at));
    if !before.complete() && stream[at] != magic()[before.cursor as int] {
        before.cursor + 1
    } else {
        0
    }
}

/// The sum of `rejection` over the first `upto` bytes of `stream`.
pub open spec fn rejections(stream: Seq<u8>, upto: nat) -> nat
    decreases upto,
{
    if upto == 0 {
        0
    } else {
        rejections(stream, (upto - 1) as nat) + rejection(stream, upto - 1)
    }
}

/// The magic number stands in `stream` at `at`.
pub open spec fn occurs_at(stream: Seq<u8>, at: int) -> bool {
    0 <= at && at + magic().len() <= stream.len() && stream.subrange(
        at,
        at + magic().len(),
    ) == magic()
}

/// No end of `noise` is a beginning of the magic number: after `noise` a
/// scan has nothing matched.
pub open spec fn ends_clean(noise: Seq<u8>) -> bool {
    forall|k: int|
        1 <= k <= noise.len() && k <= magic().len() ==> #[trigger] noise.skip(noise.len() - k)
            != magic().take(k)
}

/// The resync scanner.
#[derive(Debug)]
pub struct Scanner {
    cursor: usize,
    garbage: u64,
}

impl View for Scanner {
    type V = ScanState;

    closed spec fn view(&self) -> ScanState {
        ScanState { cursor: self.cursor as nat, garbage: self.garbage as nat }
    }
}

impl Scanner {
    /// The garbage count can take whatever one more byte adds to it.
    pub open spec fn has_room(&self) -> bool {
        self@.garbage + MAGIC_LEN <= u64::MAX
    }

    /// A scanner that has seen no byte.
    pub fn new() -> (scanner: Scanner)
        ensures
            scanner@ == ScanState::start(),
    {
        Scanner { cursor: 0, garbage: 0 }
    }

    /// Takes the next byte of the stream and says whether the magic number
    /// is now complete. Once it is, further bytes change nothing.
    pub fn feed(&mut self, byte: u8) -> (complete: bool)
        requires
            old(self).has_room(),
        ensures
            final(self)@ == old(self)@.step(byte),
            complete == final(self)@.complete(),
    {
        if self.cursor < MAGIC_LEN {
            if byte == MAGIC_NUMBER[self.cursor] {
                self.cursor = self.cursor + 1;
            } else {
                self.garbage = self.garbage + (self.cursor as u64 + 1);
                self.cursor = 0;
            }
        }
        self.cursor >= MAGIC_LEN
    }

    /// Whether the magic number is complete.
    pub fn is_complete(&self) -> (complete: bool)
        ensures
            complete == self@.complete(),
    {
        self.cursor >= MAGIC_LEN
    }

    /// How many bytes of the magic number are matched.
    pub fn cursor(&self) -> (cursor: usize)
        ensures
            cursor == self@.cursor,
    {
        self.cursor
    }

    /// How many bytes were given up as garbage.
    pub fn garbage(&self) -> (garbage: u64)
        ensures
            garbage == self@.garbage,
    {
        self.garbage
    }

    /// Whether `feed` may be called: the garbage count is not about to
    /// overflow.
    pub fn can_feed(&self) -> (room: bool)
        ensures
            room == self.has_room(),
    {
        self.garbage <= u64::MAX - MAGIC_LEN as u64
    }
}

/// The magic number, to be written to the device.
pub fn magic_number() -> (bytes: Vec<u8>)
    ensures
        bytes@ == magic(),
{
    let mut bytes: Vec<u8> = Vec::with_capacity(MAGIC_LEN);
    let mut i: usize = 0;
    while i < MAGIC_LEN
        invariant
            i <= MAGIC_LEN,
            bytes@ == magic().take(i as int),
        decreases MAGIC_LEN - i,
    {
        bytes.push(MAGIC_NUMBER[i]);
        i += 1;
    }
    bytes
}

/// A scan that is complete stays as it is, whatever follows.
pub proof fn lemma_scan_stops(stream: Seq<u8>, more: Seq<u8>)
    requires
        scan(stream).complete(),
    ensures
        scan(stream + more) == scan(stream),
    decreases more.len(),
{
    if more.len() == 0 {
        assert(stream + more == stream);
    } else {
        lemma_scan_stops(stream, more.drop_last());
        assert((stream + more).drop_last() == stream + more.drop_last());
    }
}

/// Until a scan is complete, every byte fed is either matched or counted: the
/// cursor and the garbage count add up to the length of the stream, and the
/// stream ends with the part of the magic number under the cursor.
pub proof fn lemma_scan_accounts(stream: Seq<u8>)
    requires
        stream.len() > 0 ==> !scan(stream.drop_last()).complete(),
    ensures
        scan(stream).cursor + scan(stream).garbage == stream.len(),
        scan(stream).cursor <= magic().len(),
        stream.skip(stream.len() - scan(stream).cursor) == magic().take(scan(stream).cursor as int),
    decreases stream.len(),
{
    if stream.len() > 0 {
        let before = stream.drop_last();
        if before.len() > 0 && scan(before.drop_last()).complete() {
            lemma_scan_stops(before.drop_last(), seq![before.last()]);
            assert(before.drop_last() + seq![before.last()] == before);
        }
        lemma_scan_accounts(before);
        let c = scan(before).cursor as int;
        if stream.last() == magic()[c] {
            assert(stream.skip(stream.len() - (c + 1)) == before.skip(before.len() - c).push(
                stream.last(),
            ));
            assert(magic().take(c + 1) == magic().take(c).push(magic()[c]));
        } else {
            assert(stream.skip(stream.len() as int) == magic().take(0));
        }
    } else {
        assert(stream.skip(0) == magic().take(0));
    }
}

/// The garbage count is the sum, over the bytes rejected, of the cursor at
/// that moment plus one.
pub proof fn lemma_garbage_is_sum(stream: Seq<u8>)
    ensures
        scan(stream).garbage == rejections(stream, stream.len()),
    decreases stream.len(),
{
    lemma_garbage_is_sum_upto(stream, stream.len());
    assert(stream.take(stream.len() as int) == stream);
}

proof fn lemma_garbage_is_sum_upto(stream: Seq<u8>, upto: nat)
    requires
        upto <= stream.len(),
    ensures
        scan(stream.take(upto as int)).garbage == rejections(stream, upto),
    decreases upto,
{
    if upto > 0 {
        lemma_garbage_is_sum_upto(stream, (upto - 1) as nat);
        assert(stream.take(upto as int).drop_last() == stream.take(upto - 1));
    }
}

/// A stream in which the magic number does not occur leaves a scan
/// incomplete.
pub proof fn lemma_no_match_without_magic(stream: Seq<u8>)
    requires
        forall|at: int| !occurs_at(stream, at),
    ensures
        !scan(stream).complete(),
    decreases stream.len(),
{
    if stream.len() > 0 {
        let before = stream.drop_last();
        assert forall|at: int| !occurs_at(before, at) by {
            if occurs_at(before, at) {
                assert(stream.subrange(at, at + magic().len()) == before.subrange(
                    at,
                    at + magic().len(),
                ));
                assert(occurs_at(stream, at));
            }
        }
        lemma_no_match_without_magic(before);
        lemma_scan_accounts(stream);
        if scan(stream).complete() {
            assert(magic().take(magic().len() as int) == magic());
            assert(stream.skip(stream.len() - magic().len()) == stream.subrange(
                stream.len() - magic().len(),
                stream.len() as int,
            ));
            assert(occurs_at(stream, stream.len() - magic().len()));
        }
    }
}

/// Byte `upto` of `stream` is the one at which a scan becomes complete: the
/// scan is complete after it and not before.
pub open spec fn completes_at(stream: Seq<u8>, upto: int) -> bool {
    &&& 0 <= upto <= stream.len()
    &&& scan(stream.take(upto)).complete()
    &&& forall|n: int| 0 <= n < upto ==> !(#[trigger] scan(stream.take(n))).complete()
}

/// A scan is complete only through a match: if it is complete after
/// `stream`, it became so at one byte of `stream`, that byte ends an
/// occurrence of the magic number, and nothing after it changed the state.
pub proof fn lemma_complete_by_match(stream: Seq<u8>)
    requires
        scan(stream).complete(),
    ensures
        exists|upto: int|
            #![trigger completes_at(stream, upto)]
            completes_at(stream, upto) && occurs_at(stream, upto - magic().len()) && scan(stream)
                == scan(stream.take(upto)),
    decreases stream.len(),
{
    assert(stream.len() > 0);
    let before = stream.drop_last();
    if scan(before).complete() {
        lemma_complete_by_match(before);
        let upto = choose|upto: int|
            #![trigger completes_at(before, upto)]
            completes_at(before, upto) && occurs_at(before, upto - magic().len()) && scan(before)
                == scan(before.take(upto));
        assert(before.take(upto) == stream.take(upto));
        assert forall|n: int| 0 <= n < upto implies !(#[trigger] scan(
            stream.take(n),
        )).complete() by {
            assert(before.take(n) == stream.take(n));
        }
        assert(stream.subrange(upto - magic().len(), upto) == before.subrange(
            upto - magic().len(),
            upto,
        ));
        lemma_scan_stops(before, seq![stream.last()]);
        assert(before + seq![stream.last()] == stream);
        assert(completes_at(stream, upto));
    } else {
        let upto = stream.len() as int;
        assert(stream.take(upto) == stream);
        assert forall|n: int| 0 <= n < upto implies !(#[trigger] scan(
            stream.take(n),
        )).complete() by {
            if scan(stream.take(n)).complete() {
                assert(stream.take(n) == before.take(n));
                lemma_scan_stops(before.take(n), before.skip(n));
                assert(before.take(n) + before.skip(n) == before);
            }
        }
        lemma_scan_accounts(stream);
        assert(magic().take(magic().len() as int) == magic());
        assert(stream.skip(stream.len() - magic().len()) == stream.subrange(
            stream.len() - magic().len(),
            stream.len() as int,
        ));
        assert(completes_at(stream, upto));
    }
}

/// Resynchronisation, whatever the noise holds. Let no end of `noise` be a
/// beginning of the magic number. Then a scan of `noise` followed by the
/// magic number is complete, it became so exactly at a byte that ends an
/// occurrence of the magic number, and the garbage count is the sum over the
/// rejected bytes of the cursor at the rejection plus one.
pub proof fn lemma_resync_completes(noise: Seq<u8>)
    requires
        ends_clean(noise),
    ensures
        scan(noise + magic()).complete(),
        exists|upto: int|
            #![trigger completes_at(noise + magic(), upto)]
            completes_at(noise + magic(), upto) && occurs_at(
                noise + magic(),
                upto - magic().len(),
            ) && scan(noise + magic()) == scan((noise + magic()).take(upto)),
        scan(noise + magic()).garbage == rejections(noise + magic(), (noise + magic()).len()),
{
    if scan(noise).complete() {
        lemma_scan_stops(noise, magic());
    } else {
        lemma_resync(noise);
    }
    lemma_complete_by_match(noise + magic());
    lemma_garbage_is_sum(noise + magic());
}

/// Resynchronisation after noise without a match. Let `noise` be bytes on
/// which a scan does not complete and of which no end is a beginning of the
/// magic number. Then a scan of `noise` followed by the magic number
/// completes at the last byte and not before, every byte of `noise` is
/// counted as garbage, and that count is the sum over the rejected bytes of
/// the cursor at the rejection plus one.
pub proof fn lemma_resync(noise: Seq<u8>)
    requires
        !scan(noise).complete(),
        ends_clean(noise),
    ensures
        scan(noise + magic()) == (ScanState { cursor: magic().len(), garbage: noise.len() }),
        scan(noise + magic()).complete(),
        forall|n: int|
            0 <= n < noise.len() + magic().len() ==> !(#[trigger] scan(
                (noise + magic()).take(n),
            )).complete(),
        rejections(noise + magic(), (noise + magic()).len()) == noise.len(),
{
    let stream = noise + magic();
    lemma_resync_upto(noise, magic().len());
    assert(magic().take(magic().len() as int) == magic());
    assert forall|n: int| 0 <= n < noise.len() + magic().len() implies !(#[trigger] scan(
        stream.take(n),
    )).complete() by {
        if n <= noise.len() {
            if scan(stream.take(n)).complete() {
                assert(stream.take(n) == noise.take(n));
                lemma_scan_stops(noise.take(n), noise.skip(n));
                assert(noise.take(n) + noise.skip(n) == noise);
            }
        } else {
            lemma_resync_upto(noise, (n - noise.len()) as nat);
            assert(stream.take(n) == noise + magic().take(n - noise.len()));
        }
    }
    lemma_garbage_is_sum(stream);
}

/// After clean noise and the first `k` bytes of the magic number the cursor
/// is `k` and the garbage is the noise.
proof fn lemma_resync_upto(noise: Seq<u8>, k: nat)
    requires
        !scan(noise).complete(),
        ends_clean(noise),
        k <= magic().len(),
    ensures
        scan(noise + magic().take(k as int)) == (ScanState { cursor: k, garbage: noise.len() }),
    decreases k,
{
    if k == 0 {
        assert(noise + magic().take(0) == noise);
        if noise.len() > 0 && scan(noise.drop_last()).complete() {
            lemma_scan_stops(noise.drop_last(), seq![noise.last()]);
            assert(noise.drop_last() + seq![noise.last()] == noise);
        }
        lemma_scan_accounts(noise);
        let c = scan(noise).cursor as int;
        if c > 0 {
            assert(noise.skip(noise.len() - c) == magic().take(c));
        }
    } else {
        lemma_resync_upto(noise, (k - 1) as nat);
        let longer = noise + magic().take(k as int);
        assert(longer.drop_last() == noise + magic().take(k - 1));
        assert(longer.last() == magic()[k - 1]);
    }
}

/// The magic number does not overlap itself: none of its proper ends is one
/// of its beginnings, because its first byte stands nowhere else in it.
pub proof fn lemma_magic_no_overlap()
    ensures
        forall|at: int| 1 <= at < magic().len() ==> #[trigger] magic()[at] != magic()[0],
        forall|k: int|
            1 <= k < magic().len() ==> #[trigger] magic().skip(magic().len() - k) != magic().take(k),
{
    assert forall|k: int| 1 <= k < magic().len() implies #[trigger] magic().skip(
        magic().len() - k,
    ) != magic().take(k) by {
        assert(magic().skip(magic().len() - k)[0] == magic()[magic().len() - k]);
        assert(magic().take(k)[0] == magic()[0]);
    }
}

/// Noise without the first byte of the magic number is clean: a scan
/// matches nothing of it, and after it the magic number is found.
pub proof fn lemma_clean_without_first_byte(noise: Seq<u8>)
    requires
        forall|at: int| 0 <= at < noise.len() ==> noise[at] != magic()[0],
    ensures
        scan(noise) == (ScanState { cursor: 0, garbage: noise.len() }),
        !scan(noise).complete(),
        ends_clean(noise),
    decreases noise.len(),
{
    if noise.len() > 0 {
        lemma_clean_without_first_byte(noise.drop_last());
    }
    assert forall|k: int| 1 <= k <= noise.len() && k <= magic().len() implies #[trigger] noise.skip(
        noise.len() - k,
    ) != magic().take(k) by {
        assert(noise.skip(noise.len() - k)[0] == noise[noise.len() - k]);
        assert(magic().take(k)[0] == magic()[0]);
    }
}

} // verus!
