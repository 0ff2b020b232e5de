use vstd::prelude::*;
use vstd::string::*;
use crate::errors::FetchError;
use crate::text::{dec, digits_value, unsigned_digits, is_u64_text, chars_of, parse_u64, push_char, append_chars, decimal_chars};

verus! {

/// How many chunks may wait between the network reader and the file writer.
pub const QUEUE_CAPACITY: usize = 1024;

/// The most bytes that one chunk holds.
pub const CHUNK_SIZE: usize = 262144;

/// How a track's body is to be requested once its length is known.
#[derive(Debug, Clone, Copy, PartialEq, Eq)]
pub enum FetchPlan {
    /// Create or truncate the staging file and request the whole body.
    Fresh,
    /// Append to the staging file, requesting the body from this offset on.
    ResumeFrom(u64),
}

/// The offset a download starts from: the staging file's length when
/// resuming over an existing staging file, else zero.
pub open spec fn resume_offset_spec(resume: bool, staging_exists: bool, staging_len: nat) -> nat {
    if resume && staging_exists {
        staging_len
    } else {
        0
    }
}

/// The plan for a staging file that holds `existing` bytes of `total`.
pub open spec fn plan_spec(existing: nat, total: nat) -> Result<FetchPlan, FetchError> {
    if existing == 0 {
        Ok(FetchPlan::Fresh)
    } else if existing == total {
        Err(FetchError::AlreadyComplete)
    } else {
        Ok(FetchPlan::ResumeFrom(existing as u64))
    }
}

/// The offset a download starts from.
pub fn resume_offset(resume: bool, staging_exists: bool, staging_len: u64) -> (r: u64)
    ensures
        r as nat == resume_offset_spec(resume, staging_exists, staging_len as nat),
{
    if resume && staging_exists {
        staging_len
    } else {
        0
    }
}

/// Decides how to request a track of `total` bytes when the staging file
/// already holds `existing`: a full request from nothing, a range request
/// from `existing` on, or, when the file is already whole, nothing at all
/// (`AlreadyComplete`, a signal rather than a failure).
pub fn plan_fetch(existing: u64, total: u64) -> (r: Result<FetchPlan, FetchError>)
    ensures
        r == plan_spec(existing as nat, total as nat),
{
    if existing == 0 {
        Ok(FetchPlan::Fresh)
    } else if existing == total {
        Err(FetchError::AlreadyComplete)
    } else {
        Ok(FetchPlan::ResumeFrom(existing))
    }
}

/// Reads a track's length from its `content-length` header, if the answer
/// had one that is text: the header must be an unsigned 64-bit number.
pub fn parse_content_length(header: Option<String>) -> (r: Result<u64, FetchError>)
    ensures
        header is None ==> r == Err::<u64, FetchError>(FetchError::LengthUnavailable),
        header matches Some(h) ==> (r is Ok <==> is_u64_text(h@)),
        header matches Some(h) ==> (r is Err ==> r == Err::<u64, FetchError>(
            FetchError::LengthUnavailable,
        )),
        header matches Some(h) ==> (r matches Ok(n) ==> n as nat == digits_value(
            unsigned_digits(h@),
        )),
{
    match header {
        None => Err(FetchError::LengthUnavailable),
        Some(h) => match parse_u64(&chars_of(h.as_str())) {
            Some(n) => Ok(n),
            None => Err(FetchError::LengthUnavailable),
        },
    }
}

/// The `Range` header value that asks for a body from `begin` on.
pub open spec fn range_spec(begin: nat) -> Seq<char> {
    seq!['b', 'y', 't', 'e', 's', '='] + dec(begin) + seq!['-']
}

/// The `Range` header value that asks for a body from `begin` on.
pub fn range_header(begin: u64) -> (r: String)
    ensures
        r@ == range_spec(begin as nat),
{
    let mut r = String::new();
    push_char(&mut r, 'b');
    push_char(&mut r, 'y');
    push_char(&mut r, 't');
    push_char(&mut r, 'e');
    push_char(&mut r, 's');
    push_char(&mut r, '=');
    append_chars(&mut r, &decimal_chars(begin));
    push_char(&mut r, '-');
    assert(r@ =~= range_spec(begin as nat));
    r
}

/// Whether a sequence of positions never goes down.
pub open spec fn non_decreasing(s: Seq<int>) -> bool {
    forall|i: int, j: int| 0 <= i <= j < s.len() ==> s[i] <= s[j]
}

/// `n`, but no more than `bound`.
pub open spec fn at_most(n: int, bound: int) -> int {
    if n < bound {
        n
    } else {
        bound
    }
}

/// The writer's side of one track transfer: what the staging file holds and
/// which positions the progress display has been given.
pub struct Transfer {
    /// Bytes the track has in all.
    pub total: u64,
    /// Bytes the staging file held when the transfer began.
    pub existing: u64,
    /// Bytes the staging file holds now (saturating at `u64::MAX`).
    pub written: u64,
    /// The last position given to the progress display.
    pub reported: u64,
    /// The bytes appended to the staging file so far, in the order written.
    pub appended: Ghost<Seq<u8>>,
    /// Every position given to the progress display, in order.
    pub history: Ghost<Seq<int>>,
}

impl Transfer {
    pub open spec fn wf(&self) -> bool {
        &&& self.written as int == at_most(self.existing + self.appended@.len(), u64::MAX as int)
        &&& self.history@.len() > 0
        &&& self.history@[0] == at_most(self.existing as int, self.total as int)
        &&& self.history@.last() == self.reported as int
        &&& at_most(self.written as int, self.total as int) <= self.reported
        &&& non_decreasing(self.history@)
        &&& forall|i: int| 0 <= i < self.history@.len() ==> #[trigger] self.history@[i]
            <= self.total
    }

    /// Begins the transfer over a staging file that holds `existing` bytes,
    /// and gives the display that position (no more than `total`).
    pub fn start(existing: u64, total: u64) -> (r: Transfer)
        ensures
            r.wf(),
            r.total == total,
            r.existing == existing,
            r.written == existing,
            r.appended@ == Seq::<u8>::empty(),
            r.history@ == seq![at_most(existing as int, total as int)],
    {
        let reported = if existing < total {
            existing
        } else {
            total
        };
        let ghost c: Seq<u8> = Seq::empty();
        let ghost h: Seq<int> = seq![reported as int];
        Transfer { total, existing, written: existing, reported, appended: Ghost(c), history: Ghost(h) }
    }

    /// Accounts for `chunk`, just appended to the staging file, and
    /// returns the position to give the display: the bytes written so far,
    /// no more than the track's total, and never less than the position
    /// given before.
    pub fn record_chunk(&mut self, chunk: &[u8]) -> (pos: u64)
        requires
            old(self).wf(),
        ensures
            final(self).wf(),
            final(self).total == old(self).total,
            final(self).existing == old(self).existing,
            final(self).appended@ == old(self).appended@ + chunk@,
            final(self).written as int == at_most(old(self).written + chunk@.len(), u64::MAX as int),
            pos == final(self).reported,
            pos as int == if at_most(final(self).written as int, final(self).total as int)
                < old(self).reported {
                old(self).reported as int
            } else {
                at_most(final(self).written as int, final(self).total as int)
            },
            final(self).history@ == old(self).history@.push(pos as int),
    {
        let len = chunk.len() as u64;
        let written = self.written.saturating_add(len);
        let bounded = if written < self.total {
            written
        } else {
            self.total
        };
        let pos = if bounded < self.reported {
            self.reported
        } else {
            bounded
        };
        let ghost c = self.appended@ + chunk@;
        let ghost h = self.history@.push(pos as int);
        self.written = written;
        self.reported = pos;
        self.appended = Ghost(c);
        self.history = Ghost(h);
        pos
    }

    /// Ends the transfer: the display is given the track's total.
    pub fn finish(&mut self) -> (pos: u64)
        requires
            old(self).wf(),
        ensures
            final(self).wf(),
            final(self).total == old(self).total,
            final(self).existing == old(self).existing,
            final(self).written == old(self).written,
            final(self).appended@ == old(self).appended@,
            pos == final(self).total,
            final(self).history@ == old(self).history@.push(pos as int),
            non_decreasing(final(self).history@),
            final(self).history@.last() == final(self).total,
    {
        let pos = self.total;
        let ghost h = self.history@.push(pos as int);
        self.reported = pos;
        self.history = Ghost(h);
        pos
    }
}

/// Resuming over a staging file that holds the first `len > 0` bytes of a
/// track `whole` of `total` bytes requests the body from `len` on; once the
/// range body `whole[len..total]` has been written, the staging file holds
/// the track exactly: the old prefix kept, the body appended in order. A
/// staging file that already holds the whole track asks for no body.
pub proof fn lemma_resume_completes(whole: Seq<u8>, len: u64, total: u64, t: Transfer)
    requires
        0 < len <= total,
        whole.len() == total,
        t.wf(),
        t.existing == len,
        t.total == total,
        t.appended@ == whole.subrange(len as int, total as int),
    ensures
        len < total ==> plan_spec(resume_offset_spec(true, true, len as nat), total as nat)
            == Ok::<FetchPlan, FetchError>(FetchPlan::ResumeFrom(len)),
        len == total ==> plan_spec(resume_offset_spec(true, true, len as nat), total as nat)
            == Err::<FetchPlan, FetchError>(FetchError::AlreadyComplete),
        t.written == total,
        whole.subrange(0, len as int) + t.appended@ == whole,
{
    assert(whole.subrange(0, len as int) + t.appended@ =~= whole);
}

} // verus!
