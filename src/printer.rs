//! Print jobs: the bounded job queue, splitting of long payloads into jobs, and the
//! byte chunks that one job sends to the printer.
use vstd::prelude::*;
use vstd::string::*;
use vstd::utf8::*;
use crate::format::{string_views, wrap_text};
use embassy_sync::blocking_mutex::raw::NoopRawMutex;
use embassy_sync::channel::{Channel, TrySendError};

verus! {

/// Number of jobs that the print queue holds.
pub const CHANNEL_SIZE: usize = 8;

/// Largest job, in UTF-8 bytes.
pub const DATA_SIZE: usize = 2048;

/// Characters that fit on one printed line.
pub const MAX_CHARACTERS_PER_LINE: usize = 30;

/// Line feed control byte.
pub const LINE_FEED: u8 = 0x0A;

/// Carriage return, dropped from the end of a job before it is printed.
pub const CARRIAGE_RETURN: u8 = 0x0D;

/// Blank lines fed after each job.
pub const TRAILER_FEEDS: usize = 1;

/// The bounded channel of print jobs, kept behind the trusted functions below.
#[verifier::external_body]
pub struct JobChannel {
    inner: Channel<NoopRawMutex, String, CHANNEL_SIZE>,
}

/// The jobs that a channel holds, oldest first.
pub uninterp spec fn channel_jobs(c: JobChannel) -> Seq<Seq<char>>;

/// Relies on `embassy_sync::channel::Channel::new`: a new channel holds nothing.
#[verifier::external_body]
fn channel_new() -> (c: JobChannel)
    ensures
        channel_jobs(c) == Seq::<Seq<char>>::empty(),
{
    JobChannel { inner: Channel::new() }
}

/// Relies on `embassy_sync::channel::Channel::len`: the number of jobs held.
#[verifier::external_body]
fn channel_len(c: &JobChannel) -> (n: usize)
    ensures
        n == channel_jobs(*c).len(),
{
    c.inner.len()
}

/// Relies on `embassy_sync::channel::Channel::try_send`: a channel holding fewer than
/// `CHANNEL_SIZE` jobs puts the job at the back (its `heapless::Deque::push_back`);
/// a full one hands the job back in `TrySendError::Full` and is unchanged.
#[verifier::external_body]
fn channel_try_send(c: &mut JobChannel, job: String) -> (r: Result<(), String>)
    ensures
        channel_jobs(*old(c)).len() < CHANNEL_SIZE ==> r is Ok && channel_jobs(*final(c))
            == channel_jobs(*old(c)).push(job@),
        channel_jobs(*old(c)).len() >= CHANNEL_SIZE ==> r is Err && r->Err_0 == job
            && channel_jobs(*final(c)) == channel_jobs(*old(c)),
{
    match c.inner.try_send(job) {
        Ok(()) => Ok(()),
        Err(TrySendError::Full(j)) => Err(j),
    }
}

/// Relies on `embassy_sync::channel::Channel::try_receive`: it takes the oldest job
/// (its `heapless::Deque::pop_front`), or fails on an empty channel, which is then
/// unchanged.
#[verifier::external_body]
fn channel_try_receive(c: &mut JobChannel) -> (r: Option<String>)
    ensures
        channel_jobs(*old(c)).len() == 0 ==> r is None && channel_jobs(*final(c))
            == channel_jobs(*old(c)),
        channel_jobs(*old(c)).len() > 0 ==> r is Some && r->Some_0@ == channel_jobs(*old(c))[0]
            && channel_jobs(*final(c)) == channel_jobs(*old(c)).drop_first(),
{
    c.inner.try_receive().ok()
}

/// A bounded first-in first-out queue of `CHANNEL_SIZE` print jobs.
///
/// A producer offers a job with `try_enqueue`; when the queue is full the job is
/// handed back untouched and the producer waits for room: nothing is dropped.
pub struct JobQueue {
    channel: JobChannel,
}

/// Whether a queue that holds `len` jobs takes one more.
pub open spec fn accepts(len: nat, capacity: nat) -> bool {
    len < capacity
}

/// What a queue holds after `jobs` are offered one after another, none taken out.
pub open spec fn offer_all(held: Seq<Seq<char>>, capacity: nat, jobs: Seq<Seq<char>>) -> Seq<
    Seq<char>,
>
    decreases jobs.len(),
{
    if jobs.len() == 0 {
        held
    } else {
        let next = if accepts(held.len(), capacity) {
            held.push(jobs[0])
        } else {
            held
        };
        offer_all(next, capacity, jobs.drop_first())
    }
}

impl JobQueue {
    /// The jobs waiting, oldest first.
    pub closed spec fn contents(&self) -> Seq<Seq<char>> {
        channel_jobs(self.channel)
    }

    /// The number of jobs the queue holds at most.
    pub open spec fn capacity_spec(&self) -> nat {
        CHANNEL_SIZE as nat
    }

    /// The queue never holds more jobs than its capacity.
    pub closed spec fn wf(&self) -> bool {
        channel_jobs(self.channel).len() <= CHANNEL_SIZE
    }

    /// An empty queue.
    pub fn new() -> (q: JobQueue)
        ensures
            q.wf(),
            q.contents() == Seq::<Seq<char>>::empty(),
    {
        JobQueue { channel: channel_new() }
    }

    /// Number of jobs waiting.
    pub fn len(&self) -> (n: usize)
        ensures
            n == self.contents().len(),
    {
        channel_len(&self.channel)
    }

    /// Whether no job is waiting.
    pub fn is_empty(&self) -> (r: bool)
        ensures
            r == (self.contents().len() == 0),
    {
        channel_len(&self.channel) == 0
    }

    /// Whether an offered job would have to wait.
    pub fn is_full(&self) -> (r: bool)
        requires
            self.wf(),
        ensures
            r == !accepts(self.contents().len(), self.capacity_spec()),
    {
        channel_len(&self.channel) >= CHANNEL_SIZE
    }

    /// Offers a job: it joins the back of the queue when there is room; otherwise the
    /// queue is unchanged and the job comes back in `Err`, for the producer to offer
    /// again once a job has been taken out.
    pub fn try_enqueue(&mut self, job: String) -> (r: Result<(), String>)
        requires
            old(self).wf(),
        ensures
            final(self).wf(),
            accepts(old(self).contents().len(), old(self).capacity_spec()) ==> r is Ok
                && final(self).contents() == old(self).contents().push(job@),
            !accepts(old(self).contents().len(), old(self).capacity_spec()) ==> r == Err::<
                (),
                String,
            >(job) && final(self).contents() == old(self).contents(),
    {
        channel_try_send(&mut self.channel, job)
    }

    /// Takes the oldest job out, or `None` when the queue is empty.
    pub fn dequeue(&mut self) -> (r: Option<String>)
        requires
            old(self).wf(),
        ensures
            final(self).wf(),
            old(self).contents().len() == 0 ==> r is None && final(self).contents() == old(
                self,
            ).contents(),
            old(self).contents().len() > 0 ==> r is Some && r->Some_0@ == old(self).contents()[0]
                && final(self).contents() == old(self).contents().drop_first(),
    {
        channel_try_receive(&mut self.channel)
    }
}

/// Offering one job more than the capacity to an empty queue that nobody drains
/// keeps the first `capacity` jobs, in order, and leaves the last one waiting: the
/// queue is then full, so that offer is handed back rather than lost.
pub proof fn lemma_queue_bound(capacity: nat, jobs: Seq<Seq<char>>)
    requires
        jobs.len() == capacity + 1,
    ensures
        offer_all(Seq::empty(), capacity, jobs.take(capacity as int)) == jobs.take(
            capacity as int,
        ),
        !accepts(jobs.take(capacity as int).len(), capacity),
        offer_all(Seq::empty(), capacity, jobs) == jobs.take(capacity as int),
{
    lemma_offer_all_fills(Seq::empty(), capacity, jobs.take(capacity as int));
    assert(Seq::<Seq<char>>::empty() + jobs.take(capacity as int) =~= jobs.take(capacity as int));
    lemma_offer_all_split(Seq::empty(), capacity, jobs, capacity as int);
    assert(jobs.skip(capacity as int) =~= seq![jobs[capacity as int]]);
    let held = jobs.take(capacity as int);
    let last = jobs.skip(capacity as int);
    assert(last.drop_first() =~= Seq::<Seq<char>>::empty());
    assert(offer_all(held, capacity, last) == offer_all(held, capacity, last.drop_first()));
}

proof fn lemma_offer_all_fills(held: Seq<Seq<char>>, capacity: nat, jobs: Seq<Seq<char>>)
    requires
        held.len() + jobs.len() <= capacity,
    ensures
        offer_all(held, capacity, jobs) == held + jobs,
    decreases jobs.len(),
{
    if jobs.len() > 0 {
        lemma_offer_all_fills(held.push(jobs[0]), capacity, jobs.drop_first());
        assert(held.push(jobs[0]) + jobs.drop_first() =~= held + jobs);
    } else {
        assert(held + jobs =~= held);
    }
}

proof fn lemma_offer_all_split(held: Seq<Seq<char>>, capacity: nat, jobs: Seq<Seq<char>>, k: int)
    requires
        0 <= k <= jobs.len(),
    ensures
        offer_all(held, capacity, jobs) == offer_all(
            offer_all(held, capacity, jobs.take(k)),
            capacity,
            jobs.skip(k),
        ),
    decreases k,
{
    if k == 0 {
        assert(jobs.take(0) =~= Seq::<Seq<char>>::empty());
        assert(jobs.skip(0) =~= jobs);
    } else {
        let next = if accepts(held.len(), capacity) {
            held.push(jobs[0])
        } else {
            held
        };
        lemma_offer_all_split(next, capacity, jobs.drop_first(), k - 1);
        assert(jobs.take(k).drop_first() =~= jobs.drop_first().take(k - 1));
        assert(jobs.drop_first().skip(k - 1) =~= jobs.skip(k));
    }
}

/// The byte sequences that a vector of byte vectors holds.
pub open spec fn byte_views(v: Seq<Vec<u8>>) -> Seq<Seq<u8>> {
    v.map_values(|b: Vec<u8>| b@)
}

/// A job's bytes without one trailing carriage return.
pub open spec fn strip_cr(p: Seq<u8>) -> Seq<u8> {
    if p.len() > 0 && p.last() == CARRIAGE_RETURN {
        p.drop_last()
    } else {
        p
    }
}

/// The text of a job: its bytes, less a trailing carriage return, read as UTF-8;
/// `None` where they are not valid UTF-8.
pub open spec fn job_text(p: Seq<u8>) -> Option<Seq<char>> {
    if valid_utf8(strip_cr(p)) {
        Some(decode_utf8(strip_cr(p)))
    } else {
        None
    }
}

/// What the printer is sent for `lines`: the last line first, up to the first one,
/// each as UTF-8 and followed by a line feed.
pub open spec fn reversed_lines(lines: Seq<Seq<char>>) -> Seq<Seq<u8>>
    decreases lines.len(),
{
    if lines.len() == 0 {
        seq![]
    } else {
        seq![encode_utf8(lines.last()), seq![LINE_FEED]] + reversed_lines(lines.drop_last())
    }
}

/// Blank lines fed after a job.
pub open spec fn trailer(n: nat) -> Seq<Seq<u8>>
    decreases n,
{
    if n == 0 {
        seq![]
    } else {
        seq![seq![LINE_FEED]] + trailer((n - 1) as nat)
    }
}

/// The chunks sent to the printer for one job: nothing for a job that is not text
/// or that wraps to no line (an empty or blank text advances no paper), else its
/// lines wrapped at `w`, last line first, then the trailer.
pub open spec fn job_bytes(p: Seq<u8>, w: int) -> Seq<Seq<u8>> {
    match job_text(p) {
        None => seq![],
        Some(t) => if wrap_text(t, w).len() == 0 {
            seq![]
        } else {
            reversed_lines(wrap_text(t, w)) + trailer(TRAILER_FEEDS as nat)
        },
    }
}

/// The control sequences sent once before any job: reset, print density and heat
/// timing, and upside-down printing.
pub open spec fn init_sequence() -> Seq<Seq<u8>> {
    seq![seq![0x1Bu8, 0x40u8], seq![0x1Bu8, 0x37u8, 15u8, 150u8, 250u8], seq![0x1Bu8, 0x7Bu8, 0x01u8]]
}

/// Lines reach the printer in reverse: chunk `2k` is line `n - 1 - k` and chunk
/// `2k + 1` a line feed, so the first chunk sent is the last line of the text.
pub proof fn lemma_reversed_order(lines: Seq<Seq<char>>)
    ensures
        reversed_lines(lines).len() == 2 * lines.len(),
        forall|k: int|
            0 <= k < lines.len() ==> #[trigger] reversed_lines(lines)[2 * k] == encode_utf8(
                lines[lines.len() - 1 - k],
            ) && reversed_lines(lines)[2 * k + 1] == seq![LINE_FEED],
    decreases lines.len(),
{
    if lines.len() > 0 {
        let rest = lines.drop_last();
        lemma_reversed_order(rest);
        let r = reversed_lines(lines);
        assert forall|k: int| 0 <= k < lines.len() implies #[trigger] r[2 * k] == encode_utf8(
            lines[lines.len() - 1 - k],
        ) && r[2 * k + 1] == seq![LINE_FEED] by {
            if k > 0 {
                assert(r[2 * k] == reversed_lines(rest)[2 * (k - 1)]);
                assert(r[2 * k + 1] == reversed_lines(rest)[2 * (k - 1) + 1]);
                assert(rest[rest.len() - 1 - (k - 1)] == lines[lines.len() - 1 - k]);
            }
        }
    }
}

/// Relies on `core::str::from_utf8`: it succeeds exactly on valid UTF-8, and the
/// text it returns is made of the same bytes.
#[verifier::external_body]
fn utf8_str(bytes: &[u8]) -> (r: Option<&str>)
    ensures
        r is Some <==> valid_utf8(bytes@),
        r is Some ==> r->Some_0.spec_bytes() == bytes@,
{
    core::str::from_utf8(bytes).ok()
}

/// Reads a job as text: one trailing carriage return is dropped and the rest must
/// be valid UTF-8, else `None`.
pub fn decode_job(payload: &[u8]) -> (r: Option<&str>)
    ensures
        job_text(payload@) is None ==> r is None,
        job_text(payload@) is Some ==> r is Some && r->Some_0@ == job_text(payload@)->Some_0,
{
    let n = payload.len();
    let body: &[u8] = if n > 0 && payload[n - 1] == CARRIAGE_RETURN {
        &payload[0..n - 1]
    } else {
        payload
    };
    assert(body@ == strip_cr(payload@));
    let r = utf8_str(body);
    proof {
        if r is Some {
            let t = r->Some_0;
            encode_utf8_decode_utf8(t@);
        }
    }
    r
}

/// The control sequences that prepare the printer, in the order they are sent.
pub fn init_commands() -> (r: Vec<Vec<u8>>)
    ensures
        byte_views(r@) == init_sequence(),
{
    let r = vec![vec![0x1Bu8, 0x40u8], vec![0x1Bu8, 0x37u8, 15u8, 150u8, 250u8], vec![0x1Bu8, 0x7Bu8, 0x01u8]];
    assert(byte_views(r@) =~= init_sequence());
    r
}

/// The chunks that one job sends to the printer, in order: each line of the job's
/// text wrapped at `max_width`, last line first and each followed by a line feed,
/// then the trailer of blank lines. A job that is not valid UTF-8, or whose text is
/// empty or blank, sends nothing.
pub fn job_chunks(payload: &[u8], max_width: usize) -> (r: Vec<Vec<u8>>)
    requires
        max_width >= 1,
    ensures
        byte_views(r@) == job_bytes(payload@, max_width as int),
{
    let mut r: Vec<Vec<u8>> = Vec::new();
    let text = match decode_job(payload) {
        Some(t) => t,
        None => {
            assert(byte_views(r@) =~= seq![]);
            return r;
        },
    };
    let lines = crate::format::format(text, max_width);
    let ghost l = string_views(lines@);
    if lines.len() == 0 {
        assert(byte_views(r@) =~= seq![]);
        return r;
    }
    let mut i: usize = lines.len();
    assert(l.take(i as int) =~= l);
    assert(byte_views(r@) + reversed_lines(l) =~= reversed_lines(l));
    while i > 0
        invariant
            i <= lines@.len(),
            l == string_views(lines@),
            byte_views(r@) + reversed_lines(l.take(i as int)) == reversed_lines(l),
        decreases i,
    {
        let ghost before = r@;
        assert(l.take(i as int).drop_last() =~= l.take(i - 1));
        assert(l.take(i as int).last() == lines@[i - 1]@);
        let line: &str = lines[i - 1].as_str();
        let b = line.as_bytes_vec();
        assert(b@ == encode_utf8(lines@[i - 1]@));
        r.push(b);
        let feed = vec![LINE_FEED];
        assert(feed@ =~= seq![LINE_FEED]);
        r.push(feed);
        assert(byte_views(r@) =~= byte_views(before) + seq![encode_utf8(lines@[i - 1]@), seq![LINE_FEED]]);
        assert(byte_views(r@) + reversed_lines(l.take(i - 1)) =~= byte_views(before) + reversed_lines(l.take(i as int)));
        i = i - 1;
    }
    assert(l.take(0) =~= Seq::<Seq<char>>::empty());
    assert(byte_views(r@) =~= reversed_lines(l));
    let mut k: usize = 0;
    while k < TRAILER_FEEDS
        invariant
            k <= TRAILER_FEEDS,
            byte_views(r@) + trailer((TRAILER_FEEDS - k) as nat) == reversed_lines(l) + trailer(TRAILER_FEEDS as nat),
        decreases TRAILER_FEEDS - k,
    {
        let ghost before = r@;
        let feed = vec![LINE_FEED];
        assert(feed@ =~= seq![LINE_FEED]);
        r.push(feed);
        assert(byte_views(r@) =~= byte_views(before).push(seq![LINE_FEED]));
        assert(trailer((TRAILER_FEEDS - k) as nat) == seq![seq![LINE_FEED]] + trailer((TRAILER_FEEDS - (k + 1)) as nat));
        assert(byte_views(r@) + trailer((TRAILER_FEEDS - (k + 1)) as nat) =~= byte_views(before) + trailer((TRAILER_FEEDS - k) as nat));
        k = k + 1;
    }
    assert(byte_views(r@) =~= byte_views(r@) + trailer(0));
    r
}

/// UTF-8 length of one character.
pub open spec fn char_width(c: char) -> int {
    encode_scalar(c as u32).len() as int
}

/// End of the longest run of `s` from `j` on whose UTF-8 length stays within `budget`.
pub open spec fn fit_end(s: Seq<char>, j: int, budget: int) -> int
    decreases s.len() - j,
{
    if 0 <= j < s.len() && char_width(s[j]) <= budget {
        fit_end(s, j + 1, budget - char_width(s[j]))
    } else {
        j
    }
}

/// `s` from position `i` on, cut into jobs of at most `DATA_SIZE` bytes each, every
/// job as long as the limit allows.
pub open spec fn pieces_from(s: Seq<char>, i: int) -> Seq<Seq<char>>
    decreases s.len() - i,
{
    let j = fit_end(s, i, DATA_SIZE as int);
    if i < 0 || i >= s.len() || j <= i || j > s.len() {
        seq![]
    } else {
        seq![s.subrange(i, j)] + pieces_from(s, j)
    }
}

/// The jobs that a text is cut into.
pub open spec fn pieces(s: Seq<char>) -> Seq<Seq<char>> {
    pieces_from(s, 0)
}

proof fn lemma_width_bounds(c: char)
    ensures
        1 <= char_width(c) <= 4,
{
}

proof fn lemma_fit_end_bounds(s: Seq<char>, j: int, budget: int)
    requires
        0 <= j <= s.len(),
    ensures
        j <= fit_end(s, j, budget) <= s.len(),
        j < s.len() && budget >= 4 ==> j < fit_end(s, j, budget),
        encode_utf8(s.subrange(j, fit_end(s, j, budget))).len() <= if budget >= 0 { budget } else { 0 },
    decreases s.len() - j,
{
    let e = fit_end(s, j, budget);
    lemma_width_bounds(s[j]);
    if 0 <= j < s.len() && char_width(s[j]) <= budget {
        lemma_fit_end_bounds(s, j + 1, budget - char_width(s[j]));
        let sub = s.subrange(j, e);
        assert(sub.drop_first() =~= s.subrange(j + 1, e));
        assert(sub[0] == s[j]);
    } else {
        assert(s.subrange(j, e) =~= Seq::<char>::empty());
    }
}

/// Cutting a text into jobs loses nothing and keeps every job within the size
/// limit: the jobs laid end to end are the text, and each is a non-empty run of at
/// most `DATA_SIZE` bytes of UTF-8.
pub proof fn lemma_pieces_cover(s: Seq<char>, i: int)
    requires
        0 <= i <= s.len(),
    ensures
        crate::format::concat_lines(pieces_from(s, i)) == s.subrange(i, s.len() as int),
        forall|k: int|
            0 <= k < pieces_from(s, i).len() ==> (#[trigger] pieces_from(s, i)[k]).len() > 0
                && encode_utf8(pieces_from(s, i)[k]).len() <= DATA_SIZE,
    decreases s.len() - i,
{
    let n = s.len() as int;
    if i < n {
        let j = fit_end(s, i, DATA_SIZE as int);
        lemma_fit_end_bounds(s, i, DATA_SIZE as int);
        lemma_pieces_cover(s, j);
        let all = pieces_from(s, i);
        let rest = pieces_from(s, j);
        assert(all.drop_first() =~= rest);
        assert(s.subrange(i, n) =~= s.subrange(i, j) + s.subrange(j, n));
        assert forall|k: int| 0 <= k < all.len() implies (#[trigger] all[k]).len() > 0
            && encode_utf8(all[k]).len() <= DATA_SIZE by {
            if k > 0 {
                assert(all[k] == rest[k - 1]);
            }
        }
    } else {
        assert(s.subrange(i, n) =~= Seq::<char>::empty());
    }
}

fn char_width_of(c: char) -> (n: usize)
    ensures
        n == char_width(c),
{
    let v = c as u32;
    if v <= 0x7F {
        1
    } else if v <= 0x7FF {
        2
    } else if v <= 0xFFFF && !(0xD800 <= v && v <= 0xDFFF) {
        3
    } else {
        4
    }
}

/// Cuts a text into jobs of at most `DATA_SIZE` bytes, each as long as the limit
/// allows without splitting a character.
pub fn chunk_text(text: &str) -> (r: Vec<String>)
    ensures
        string_views(r@) == pieces(text@),
{
    let n = text.unicode_len();
    let mut r: Vec<String> = Vec::new();
    let mut i: usize = 0;
    assert(string_views(r@) + pieces_from(text@, 0) =~= pieces_from(text@, 0));
    while i < n
        invariant
            n == text@.len(),
            i <= n,
            string_views(r@) + pieces_from(text@, i as int) == pieces_from(text@, 0),
        decreases n - i,
    {
        let ghost s = text@;
        let mut j: usize = i;
        let mut budget: usize = DATA_SIZE;
        while j < n && char_width_of(text.get_char(j)) <= budget
            invariant
                n == s.len(),
                s == text@,
                i <= j <= n,
                budget <= DATA_SIZE,
                fit_end(s, j as int, budget as int) == fit_end(s, i as int, DATA_SIZE as int),
            decreases n - j,
        {
            budget = budget - char_width_of(text.get_char(j));
            j = j + 1;
        }
        proof {
            lemma_fit_end_bounds(s, i as int, DATA_SIZE as int);
        }
        let piece = text.substring_char(i, j).to_owned();
        let ghost before = r@;
        r.push(piece);
        assert(string_views(r@) =~= string_views(before).push(piece@));
        assert(string_views(r@) + pieces_from(s, j as int) =~= string_views(before) + pieces_from(s, i as int));
        i = j;
    }
    assert(pieces_from(text@, i as int) =~= Seq::<Seq<char>>::empty());
    assert(string_views(r@) =~= string_views(r@) + pieces_from(text@, i as int));
    r
}

/// The jobs that a message from the broker becomes: `None` when its payload is not
/// valid UTF-8 (the message is dropped), else its text cut into jobs.
pub fn inbound_jobs(payload: &[u8]) -> (r: Option<Vec<String>>)
    ensures
        r is None <==> !valid_utf8(payload@),
        r is Some ==> string_views(r->Some_0@) == pieces(decode_utf8(payload@)),
{
    match utf8_str(payload) {
        None => None,
        Some(text) => {
            proof {
                encode_utf8_decode_utf8(text@);
            }
            Some(chunk_text(text))
        },
    }
}

/// A message submitted through the form becomes one job when it fits the job size
/// limit, else it is refused.
pub fn submission_job(message: &str) -> (r: Option<String>)
    ensures
        encode_utf8(message@).len() <= DATA_SIZE ==> r is Some && r->Some_0@ == message@,
        encode_utf8(message@).len() > DATA_SIZE ==> r is None,
{
    if message.as_bytes().len() <= DATA_SIZE {
        Some(message.to_owned())
    } else {
        None
    }
}

} // verus!
