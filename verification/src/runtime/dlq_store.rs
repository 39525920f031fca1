//! Dead letter stores: letters kept until they are acknowledged or taken
//! back for a retry.

use crate::runtime::dlq::{letter_views, DeadLetter, LetterView};
use crate::signal::SignalEnvelope;
use vstd::prelude::*;

verus! {

/// A store of dead letters.
pub trait DeadLetterStore {
    fn enqueue(&mut self, letter: DeadLetter) -> Result<(), String>;

    /// Copies of the oldest `limit` letters.
    fn peek(&self, limit: usize) -> Vec<DeadLetter>;

    /// Drops the oldest letter for `msg_id`; false when there is none.
    fn ack(&mut self, msg_id: &str) -> bool;

    /// Takes out the oldest letter for `msg_id` and gives its envelope.
    fn retry(&mut self, msg_id: &str) -> Option<SignalEnvelope>;

    fn len(&self) -> usize;
}

/// `i` is the oldest letter whose message id is `id`.
pub open spec fn is_first_match(s: Seq<LetterView>, id: Seq<char>, i: int) -> bool {
    &&& 0 <= i < s.len()
    &&& s[i].envelope.msg_id == id
    &&& forall|j: int| 0 <= j < i ==> s[j].envelope.msg_id != id
}

pub open spec fn has_match(s: Seq<LetterView>, id: Seq<char>) -> bool {
    exists|i: int| 0 <= i < s.len() && #[trigger] s[i].envelope.msg_id == id
}

/// Dead letters held in memory, oldest first.
pub struct MemoryDeadLetterStore {
    inner: Vec<DeadLetter>,
}

impl MemoryDeadLetterStore {
    pub closed spec fn letters(&self) -> Seq<LetterView> {
        letter_views(self.inner@)
    }

    pub fn new() -> (s: Self)
        ensures
            s.letters() == Seq::<LetterView>::empty(),
    {
        let s = MemoryDeadLetterStore { inner: Vec::new() };
        assert(s.letters() =~= Seq::<LetterView>::empty());
        s
    }

    /// The position of the oldest letter for `msg_id`.
    fn position(&self, msg_id: &str) -> (r: Option<usize>)
        ensures
            match r {
                Some(i) => is_first_match(self.letters(), msg_id@, i as int),
                None => !has_match(self.letters(), msg_id@),
            },
    {
        let mut i: usize = 0;
        while i < self.inner.len()
            invariant
                i <= self.inner@.len(),
                forall|j: int| 0 <= j < i ==> self.letters()[j].envelope.msg_id != msg_id@,
            decreases self.inner@.len() - i,
        {
            if crate::text::str_equal(self.inner[i].envelope.msg_id.as_str(), msg_id) {
                return Some(i);
            }
            i = i + 1;
        }
        None
    }

    fn take_at(&mut self, i: usize) -> (l: DeadLetter)
        requires
            i < old(self).letters().len(),
        ensures
            l@ == old(self).letters()[i as int],
            final(self).letters() == old(self).letters().remove(i as int),
    {
        let l = self.inner.remove(i);
        assert(self.letters() =~= old(self).letters().remove(i as int));
        l
    }
}

impl Default for MemoryDeadLetterStore {
    fn default() -> (s: Self)
        ensures
            s.letters() == Seq::<LetterView>::empty(),
    {
        MemoryDeadLetterStore::new()
    }
}

impl DeadLetterStore for MemoryDeadLetterStore {
    fn enqueue(&mut self, letter: DeadLetter) -> (r: Result<(), String>)
        ensures
            r is Ok,
            final(self).letters() == old(self).letters().push(letter@),
    {
        let ghost lv = letter@;
        self.inner.push(letter);
        assert(self.letters() =~= old(self).letters().push(lv));
        Ok(())
    }

    fn peek(&self, limit: usize) -> (out: Vec<DeadLetter>)
        ensures
            letter_views(out@) == self.letters().take(
                if limit < self.letters().len() {
                    limit as int
                } else {
                    self.letters().len() as int
                },
            ),
    {
        let n = if limit < self.inner.len() {
            limit
        } else {
            self.inner.len()
        };
        let mut out: Vec<DeadLetter> = Vec::new();
        let mut i: usize = 0;
        while i < n
            invariant
                n <= self.inner@.len(),
                i <= n,
                out@.len() == i,
                letter_views(out@) == self.letters().take(i as int),
            decreases n - i,
        {
            let ghost before = out@;
            let c = self.inner[i].clone();
            let ghost cv = c@;
            out.push(c);
            assert(out@ == before.push(c));
            assert(letter_views(out@) =~= letter_views(before).push(cv));
            assert(letter_views(out@) =~= self.letters().take(i + 1));
            i = i + 1;
        }
        out
    }

    fn ack(&mut self, msg_id: &str) -> (b: bool)
        ensures
            b == has_match(old(self).letters(), msg_id@),
            b ==> exists|i: int|
                is_first_match(old(self).letters(), msg_id@, i) && final(self).letters() == #[trigger] old(
                    self,
                ).letters().remove(i),
            !b ==> final(self).letters() == old(self).letters(),
    {
        match self.position(msg_id) {
            Some(i) => {
                self.take_at(i);
                true
            },
            None => false,
        }
    }

    fn retry(&mut self, msg_id: &str) -> (r: Option<SignalEnvelope>)
        ensures
            r is Some == has_match(old(self).letters(), msg_id@),
            r matches Some(e) ==> exists|i: int|
                is_first_match(old(self).letters(), msg_id@, i) && e@ == old(self).letters()[i].envelope
                    && final(self).letters() == #[trigger] old(self).letters().remove(i),
            r is None ==> final(self).letters() == old(self).letters(),
    {
        match self.position(msg_id) {
            Some(i) => {
                let l = self.take_at(i);
                Some(l.envelope)
            },
            None => None,
        }
    }

    fn len(&self) -> (n: usize)
        ensures
            n == self.letters().len(),
    {
        self.inner.len()
    }
}

/// Retrying the id of the letter just stored, when no older letter has
/// that id, takes exactly that letter and leaves the store as it was
/// before the letter came.
pub proof fn law_enqueue_then_retry(s: Seq<LetterView>, l: LetterView)
    requires
        !has_match(s, l.envelope.msg_id),
    ensures
        has_match(s.push(l), l.envelope.msg_id),
        is_first_match(s.push(l), l.envelope.msg_id, s.len() as int),
        s.push(l).remove(s.len() as int) == s,
{
    assert(s.push(l)[s.len() as int] == l);
    assert forall|j: int| 0 <= j < s.len() implies s.push(l)[j].envelope.msg_id != l.envelope.msg_id by {
        assert(s.push(l)[j] == s[j]);
    }
    assert(s.push(l).remove(s.len() as int) =~= s);
}

} // verus!
