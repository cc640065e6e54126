//! The prompt history: a bounded list of accepted prompts that the up and down
//! arrows walk, with the unsent draft kept aside.

use vstd::prelude::*;
use crate::text;
use crate::text::{same, trim};

verus! {

/// Accepted prompts, oldest first, and where a walk through them stands.
pub struct PromptHistory {
    pub entries: Vec<String>,
    pub max_entries: usize,
    /// While browsing, the entry that is recalled.
    pub browsing: Option<usize>,
    /// The composer's text when the walk began.
    pub draft: Option<String>,
}

/// What a prompt history holds.
#[verifier::ext_equal]
pub ghost struct HistoryModel {
    pub entries: Seq<Seq<char>>,
    pub capacity: nat,
    pub browsing: Option<int>,
    pub draft: Option<Seq<char>>,
}

/// The last `n` elements.
pub open spec fn newest(s: Seq<Seq<char>>, n: nat) -> Seq<Seq<char>> {
    if s.len() <= n {
        s
    } else {
        s.skip(s.len() - n)
    }
}

impl HistoryModel {
    /// A history without entries that keeps at most `n` of them, and at least
    /// one.
    pub open spec fn empty(n: nat) -> HistoryModel {
        HistoryModel {
            entries: Seq::empty(),
            capacity: if n == 0 {
                1
            } else {
                n
            },
            browsing: None,
            draft: None,
        }
    }

    /// Every history that its own operations lead to.
    pub open spec fn wf(self) -> bool {
        &&& self.capacity >= 1
        &&& self.entries.len() <= self.capacity
        &&& match self.browsing {
            Some(i) => 0 <= i < self.entries.len() && self.draft is Some,
            None => self.draft is None,
        }
    }

    /// No walk, no draft.
    pub open spec fn rested(self) -> HistoryModel {
        HistoryModel { browsing: None, draft: None, ..self }
    }

    /// The history after a prompt was accepted.
    pub open spec fn recorded(self, prompt: Seq<char>) -> HistoryModel {
        let t = text::trimmed(prompt);
        if t.len() == 0 || (self.entries.len() > 0 && self.entries.last() == t) {
            self.rested()
        } else {
            HistoryModel { entries: newest(self.entries.push(t), self.capacity), ..self.rested() }
        }
    }

    /// The entry that a step back recalls.
    pub open spec fn older_index(self) -> int {
        match self.browsing {
            Some(i) => if i > 0 {
                i - 1
            } else {
                0
            },
            None => self.entries.len() - 1,
        }
    }

    /// The history after a step back, with `current` in the composer.
    pub open spec fn stepped_back(self, current: Seq<char>) -> HistoryModel {
        if self.entries.len() == 0 {
            self
        } else {
            HistoryModel {
                browsing: Some(self.older_index()),
                draft: if self.browsing is Some {
                    self.draft
                } else {
                    Some(current)
                },
                ..self
            }
        }
    }

    /// What a step back recalls.
    pub open spec fn recalled_back(self) -> Option<Seq<char>> {
        if self.entries.len() == 0 {
            None
        } else {
            Some(self.entries[self.older_index()])
        }
    }

    /// The history after a step forward.
    pub open spec fn stepped_forward(self) -> HistoryModel {
        match self.browsing {
            Some(i) => if i + 1 < self.entries.len() {
                HistoryModel { browsing: Some(i + 1), ..self }
            } else {
                self.rested()
            },
            None => self,
        }
    }

    /// What a step forward recalls: the next entry, the draft past the newest
    /// one, nothing outside a walk.
    pub open spec fn recalled_forward(self) -> Option<Seq<char>> {
        match self.browsing {
            Some(i) => if i + 1 < self.entries.len() {
                Some(self.entries[i + 1])
            } else {
                self.draft
            },
            None => None,
        }
    }
}

impl View for PromptHistory {
    type V = HistoryModel;

    open spec fn view(&self) -> HistoryModel {
        HistoryModel {
            entries: text::texts(self.entries@),
            capacity: self.max_entries as nat,
            browsing: match self.browsing {
                Some(i) => Some(i as int),
                None => None,
            },
            draft: text::opt_text(self.draft),
        }
    }
}

impl PromptHistory {
    pub fn new(max_entries: usize) -> (r: Self)
        ensures
            r@ == HistoryModel::empty(max_entries as nat),
            r@.wf(),
    {
        let r = PromptHistory {
            entries: Vec::new(),
            max_entries: if max_entries == 0 {
                1
            } else {
                max_entries
            },
            browsing: None,
            draft: None,
        };
        assert(r@.entries =~= Seq::empty());
        r
    }

    /// Number of stored entries.
    pub fn len(&self) -> (r: usize)
        ensures
            r == self@.entries.len(),
    {
        self.entries.len()
    }

    /// Whether a walk is in progress.
    pub fn is_browsing(&self) -> (r: bool)
        ensures
            r == (self@.browsing is Some),
    {
        self.browsing.is_some()
    }

    /// Records an accepted prompt, and ends any walk. A blank prompt and a
    /// repetition of the newest one are not stored.
    pub fn record(&mut self, prompt: &str)
        requires
            old(self)@.wf(),
        ensures
            final(self)@ == old(self)@.recorded(prompt@),
            final(self)@.wf(),
    {
        self.browsing = None;
        self.draft = None;
        let trimmed = trim(prompt);
        if trimmed.as_str().unicode_len() == 0 {
            return ;
        }
        if self.entries.len() > 0 {
            let last: usize = self.entries.len() - 1;
            if same(self.entries[last].as_str(), trimmed.as_str()) {
                return ;
            }
        }
        let ghost before = text::texts(self.entries@);
        let ghost all = before.push(trimmed@);
        self.entries.push(trimmed);
        assert(text::texts(self.entries@) =~= all);
        if self.entries.len() > self.max_entries {
            let _ = self.entries.remove(0);
            assert(text::texts(self.entries@) =~= all.skip(1));
            assert(all.skip(all.len() - self.max_entries as nat) =~= all.skip(1));
        }
    }

    /// Recalls an older prompt: the newest one first, with `current` kept as
    /// the draft, then one back at a time, down to the oldest.
    pub fn older(&mut self, current: &str) -> (r: Option<String>)
        requires
            old(self)@.wf(),
        ensures
            final(self)@ == old(self)@.stepped_back(current@),
            text::opt_text(r) == old(self)@.recalled_back(),
            final(self)@.wf(),
    {
        if self.entries.len() == 0 {
            return None;
        }
        let next: usize = match self.browsing {
            Some(index) => if index > 0 {
                index - 1
            } else {
                0
            },
            None => {
                self.draft = Some(current.to_string());
                self.entries.len() - 1
            },
        };
        self.browsing = Some(next);
        Some(self.entries[next].clone())
    }

    /// Recalls a newer prompt; past the newest one, the draft. Outside a walk
    /// nothing changes.
    pub fn newer(&mut self) -> (r: Option<String>)
        requires
            old(self)@.wf(),
        ensures
            final(self)@ == old(self)@.stepped_forward(),
            text::opt_text(r) == old(self)@.recalled_forward(),
            final(self)@.wf(),
    {
        match self.browsing {
            None => None,
            Some(index) => {
                if index + 1 < self.entries.len() {
                    self.browsing = Some(index + 1);
                    Some(self.entries[index + 1].clone())
                } else {
                    self.browsing = None;
                    self.draft.take()
                }
            },
        }
    }

    /// Ends any walk and drops the draft.
    pub fn reset(&mut self)
        requires
            old(self)@.wf(),
        ensures
            final(self)@ == old(self)@.rested(),
            final(self)@.wf(),
    {
        self.browsing = None;
        self.draft = None;
    }
}

// ---------------------------------------------------------------------------
// Laws
// ---------------------------------------------------------------------------

/// Whether no entry repeats the one before it.
pub open spec fn has_no_repeats(entries: Seq<Seq<char>>) -> bool {
    forall|i: int, j: int|
        0 <= i && j == i + 1 && j < entries.len() ==> #[trigger] entries[i] != #[trigger] entries[j]
}

/// Recording keeps the history within its capacity and free of consecutive
/// repetitions.
pub proof fn law_history_is_bounded_without_repeats(h: HistoryModel, prompt: Seq<char>)
    requires
        h.wf(),
        has_no_repeats(h.entries),
    ensures
        h.recorded(prompt).wf(),
        has_no_repeats(h.recorded(prompt).entries),
        h.recorded(prompt).entries.len() <= h.capacity,
{
}

/// Recording is idempotent: the same prompt twice in a row is stored once.
pub proof fn law_recording_twice_is_recording_once(h: HistoryModel, prompt: Seq<char>)
    requires
        h.wf(),
    ensures
        h.recorded(prompt).recorded(prompt) == h.recorded(prompt),
{
    let t = text::trimmed(prompt);
    let once = h.recorded(prompt);
    if t.len() > 0 {
        assert(once.entries.last() == t);
    }
    assert(once.recorded(prompt) =~= once);
}

/// Walking one step back and one forward again gives the draft back exactly,
/// and leaves the history as it was.
pub proof fn law_forward_undoes_back(h: HistoryModel, current: Seq<char>)
    requires
        h.wf(),
        h.browsing is None,
        h.entries.len() > 0,
    ensures
        h.stepped_back(current).recalled_forward() == Some(current),
        h.stepped_back(current).stepped_forward() == h,
{
    assert(h.stepped_back(current).stepped_forward() =~= h);
}

/// Walking never changes a stored entry.
pub proof fn law_walking_keeps_the_entries(h: HistoryModel, current: Seq<char>)
    ensures
        h.stepped_back(current).entries == h.entries,
        h.stepped_forward().entries == h.entries,
        h.rested().entries == h.entries,
{
}

/// Accepting a prompt always ends the walk, even where it is stored already.
pub proof fn law_accepting_ends_the_walk(h: HistoryModel, prompt: Seq<char>)
    ensures
        h.recorded(prompt).browsing is None,
        h.recorded(prompt).draft is None,
{
}

/// A new prompt becomes the newest entry, without the white space around it;
/// where the history is full, the oldest entry makes room. A blank prompt and
/// one that was just recorded change no entry.
pub proof fn law_a_new_prompt_becomes_the_newest_entry(h: HistoryModel, prompt: Seq<char>)
    requires
        h.wf(),
    ensures
        ({
            let t = text::trimmed(prompt);
            let next = h.recorded(prompt).entries;
            let new = t.len() > 0 && !(h.entries.len() > 0 && h.entries.last() == t);
            &&& new && h.entries.len() < h.capacity ==> next == h.entries.push(t)
            &&& new && h.entries.len() == h.capacity ==> next == h.entries.skip(1).push(t)
            &&& !new ==> next == h.entries
            &&& h.recorded(prompt).capacity == h.capacity
        }),
{
    let t = text::trimmed(prompt);
    if h.entries.len() == h.capacity {
        assert(h.entries.push(t).skip(1) =~= h.entries.skip(1).push(t));
    }
}

/// A step back recalls the newest entry first, then the one before, and stays
/// at the oldest. What was typed is kept from the first step on.
pub proof fn law_a_step_back_recalls_the_entry_before(h: HistoryModel, current: Seq<char>)
    requires
        h.wf(),
    ensures
        h.entries.len() == 0 ==> h.recalled_back() is None && h.stepped_back(current) == h,
        h.entries.len() > 0 && h.browsing is None ==> {
            &&& h.recalled_back() == Some(h.entries.last())
            &&& h.stepped_back(current).browsing == Some(h.entries.len() - 1)
            &&& h.stepped_back(current).draft == Some(current)
        },
        h.browsing matches Some(i) ==> i > 0 ==> {
            &&& h.recalled_back() == Some(h.entries[i - 1])
            &&& h.stepped_back(current).browsing == Some(i - 1)
            &&& h.stepped_back(current).draft == h.draft
        },
        h.browsing == Some(0int) ==> {
            &&& h.recalled_back() == Some(h.entries[0])
            &&& h.stepped_back(current).browsing == Some(0int)
            &&& h.stepped_back(current).draft == h.draft
        },
{
}

/// A step forward recalls the entry behind, and past the newest one what was
/// typed before the walk, which is over then. Outside a walk it does nothing.
pub proof fn law_a_step_forward_recalls_the_entry_behind(h: HistoryModel)
    requires
        h.wf(),
    ensures
        h.browsing is None ==> h.recalled_forward() is None && h.stepped_forward() == h,
        h.browsing matches Some(i) ==> {
            &&& i + 1 < h.entries.len() ==> h.recalled_forward() == Some(h.entries[i + 1])
                && h.stepped_forward().browsing == Some(i + 1) && h.stepped_forward().draft
                == h.draft
            &&& i + 1 == h.entries.len() ==> h.recalled_forward() == h.draft
                && h.stepped_forward().browsing is None && h.stepped_forward().draft is None
        },
{
}

/// A history keeps as many prompts as it was made for, one at least.
pub proof fn law_a_history_keeps_what_it_was_made_for(n: nat)
    ensures
        HistoryModel::empty(n).entries.len() == 0,
        n > 0 ==> HistoryModel::empty(n).capacity == n,
        n == 0 ==> HistoryModel::empty(n).capacity == 1,
        HistoryModel::empty(n).browsing is None,
{
}

/// What is seen of a history is what it holds, field by field.
pub proof fn law_a_history_is_seen_as_it_is(it: PromptHistory)
    ensures
        it@.entries == text::texts(it.entries@),
        it@.capacity == it.max_entries as nat,
        it@.browsing == (match it.browsing {
                Some(i) => Some(i as int),
                None => None,
            }),
        it@.draft == text::opt_text(it.draft),
{
}

} // verus!
