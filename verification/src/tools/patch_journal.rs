//! The patch journal: every edit is recorded with its pre-image, so that edits
//! can be walked back from the newest on.

use vstd::prelude::*;
use sha2::Digest;
use crate::text;
use crate::text::{blank, concat2, concat3, ends_with, join_texts, same, split_lines};
use crate::transcript::clone_opt;

verus! {

/// One line of the journal.
#[derive(Debug, PartialEq)]
pub struct PatchJournalEntry {
    pub at: String,
    pub path: String,
    /// Digest of the content the patch wrote: undo refuses when the file moved
    /// on.
    pub post_sha256: String,
    /// Full previous content; `None` when the patch created the file, or for
    /// oversized pre-images.
    pub pre_image: Option<String>,
    /// Set when the pre-image was too large to journal.
    pub pre_image_elided: Option<bool>,
}

impl Clone for PatchJournalEntry {
    fn clone(&self) -> (r: Self)
        ensures
            r == *self,
    {
        PatchJournalEntry {
            at: self.at.clone(),
            path: self.path.clone(),
            post_sha256: self.post_sha256.clone(),
            pre_image: clone_opt(&self.pre_image),
            pre_image_elided: self.pre_image_elided,
        }
    }
}

/// Pre-images above this many characters are not journaled.
pub const MAX_PRE_IMAGE_CHARS: usize = 1_000_000;

// ---------------------------------------------------------------------------
// Digest
// ---------------------------------------------------------------------------

/// The SHA-256 digest of bytes.
pub uninterp spec fn sha256_digest(bytes: Seq<u8>) -> Seq<u8>;

/// `sha2::Sha256::digest`: the 32 bytes of the SHA-256 digest of the input.
/// The result is a function of the bytes alone.
#[verifier::external_body]
fn sha256_bytes(bytes: &[u8]) -> (r: Vec<u8>)
    ensures
        r@ == sha256_digest(bytes@),
        r@.len() == 32,
{
    sha2::Sha256::digest(bytes).to_vec()
}

/// A hexadecimal digit in lower case, for `n` below sixteen.
pub open spec fn hex_digit(n: int) -> char {
    if n < 10 {
        (n + '0' as int) as char
    } else {
        (n - 10 + 'a' as int) as char
    }
}

/// The hexadecimal notation of bytes, two digits for each.
pub open spec fn hex(bytes: Seq<u8>) -> Seq<char>
    decreases bytes.len(),
{
    if bytes.len() == 0 {
        Seq::empty()
    } else {
        hex(bytes.drop_last()).push(hex_digit(bytes.last() as int / 16)).push(
            hex_digit(bytes.last() as int % 16),
        )
    }
}

/// The hexadecimal digest of a text.
pub open spec fn text_digest(s: Seq<char>) -> Seq<char> {
    hex(sha256_digest(vstd::utf8::encode_utf8(s)))
}

fn hex_char(n: u8) -> (c: char)
    requires
        n < 16,
    ensures
        c == hex_digit(n as int),
{
    if n < 10 {
        (n + 48u8) as char
    } else {
        (n - 10u8 + 97u8) as char
    }
}

/// The bytes in hexadecimal notation.
pub fn to_hex(bytes: &Vec<u8>) -> (r: String)
    ensures
        r@ == hex(bytes@),
{
    let mut out = String::new();
    let mut i: usize = 0;
    assert(bytes@.take(0) =~= Seq::empty());
    while i < bytes.len()
        invariant
            i <= bytes.len(),
            out@ == hex(bytes@.take(i as int)),
        decreases bytes.len() - i,
    {
        assert(bytes@.take(i + 1).drop_last() =~= bytes@.take(i as int));
        let b: u8 = bytes[i];
        out.push(hex_char(b / 16));
        out.push(hex_char(b % 16));
        i = i + 1;
    }
    assert(bytes@.take(i as int) =~= bytes@);
    out
}

/// The SHA-256 digest of a text, in hexadecimal.
pub fn sha256(text: &str) -> (r: String)
    ensures
        r@ == text_digest(text@),
{
    let d = sha256_bytes(text.as_bytes());
    to_hex(&d)
}

// ---------------------------------------------------------------------------
// Where the journal is
// ---------------------------------------------------------------------------

/// A directory on the way up from the start, and what was found in it.
pub struct JournalDir {
    pub path: String,
    pub has_drip: bool,
    pub has_git: bool,
}

/// The first directory that holds the marker.
pub open spec fn first_with_drip(dirs: Seq<JournalDir>) -> Option<int>
    decreases dirs.len(),
{
    if dirs.len() == 0 {
        None
    } else {
        match first_with_drip(dirs.drop_last()) {
            Some(i) => Some(i),
            None => if dirs.last().has_drip {
                Some(dirs.len() - 1)
            } else {
                None
            },
        }
    }
}

/// The first directory that holds a repository.
pub open spec fn first_with_git(dirs: Seq<JournalDir>) -> Option<int>
    decreases dirs.len(),
{
    if dirs.len() == 0 {
        None
    } else {
        match first_with_git(dirs.drop_last()) {
            Some(i) => Some(i),
            None => if dirs.last().has_git {
                Some(dirs.len() - 1)
            } else {
                None
            },
        }
    }
}

/// The journal's root: the nearest directory with a `.drip`, else the nearest
/// with a `.git`, else the start.
pub open spec fn journal_root(start_dir: Seq<char>, dirs: Seq<JournalDir>) -> Seq<char> {
    match first_with_drip(dirs) {
        Some(i) => dirs[i].path@,
        None => match first_with_git(dirs) {
            Some(i) => dirs[i].path@,
            None => start_dir,
        },
    }
}

/// Finds the journal's root among the start directory and its ancestors,
/// nearest first: the nearest `.drip`, then the nearest `.git`, then the start
/// itself.
pub fn find_journal_root(start_dir: &str, dirs: &[JournalDir]) -> (r: String)
    ensures
        r@ == journal_root(start_dir@, dirs@),
{
    let mut git: Option<usize> = None;
    let mut i: usize = 0;
    assert(dirs@.take(0) =~= Seq::empty());
    while i < dirs.len()
        invariant
            i <= dirs.len(),
            first_with_drip(dirs@.take(i as int)) is None,
            match git {
                Some(g) => g < i && first_with_git(dirs@.take(i as int)) == Some(g as int),
                None => first_with_git(dirs@.take(i as int)) is None,
            },
        decreases dirs.len() - i,
    {
        assert(dirs@.take(i + 1).drop_last() =~= dirs@.take(i as int));
        if dirs[i].has_drip {
            proof {
                lemma_first_drip_stays(dirs@, i + 1);
            }
            return dirs[i].path.clone();
        }
        if git.is_none() && dirs[i].has_git {
            git = Some(i);
        }
        i = i + 1;
    }
    assert(dirs@.take(i as int) =~= dirs@);
    match git {
        Some(g) => dirs[g].path.clone(),
        None => start_dir.to_string(),
    }
}

proof fn lemma_first_drip_stays(dirs: Seq<JournalDir>, n: int)
    requires
        0 <= n <= dirs.len(),
        first_with_drip(dirs.take(n)) is Some,
    ensures
        first_with_drip(dirs) == first_with_drip(dirs.take(n)),
    decreases dirs.len() - n,
{
    if n == dirs.len() {
        assert(dirs.take(n) =~= dirs);
    } else {
        assert(dirs.take(n + 1).drop_last() =~= dirs.take(n));
        lemma_first_drip_stays(dirs, n + 1);
    }
}

/// `leaf` under `base`.
pub open spec fn path_under(base: Seq<char>, leaf: Seq<char>) -> Seq<char> {
    if base.len() == 0 {
        leaf
    } else if text::ends_in(base, "/"@) {
        base + leaf
    } else {
        base + "/"@ + leaf
    }
}

fn join_path(base: &str, leaf: &str) -> (r: String)
    ensures
        r@ == path_under(base@, leaf@),
{
    if base.unicode_len() == 0 {
        leaf.to_string()
    } else if ends_with(base, "/") {
        concat2(base, leaf)
    } else {
        concat3(base, "/", leaf)
    }
}

/// The path of the journal file.
pub fn patch_journal_path(workspace_root: &str, dirs: &[JournalDir]) -> (r: String)
    ensures
        r@ == path_under(
            path_under(journal_root(workspace_root@, dirs@), ".drip"@),
            "patches.jsonl"@,
        ),
{
    let root = find_journal_root(workspace_root, dirs);
    let dir = join_path(root.as_str(), ".drip");
    join_path(dir.as_str(), "patches.jsonl")
}

// ---------------------------------------------------------------------------
// Recording
// ---------------------------------------------------------------------------

/// One edit to record.
#[derive(Debug)]
pub struct AppendPatchJournalEntry {
    pub path: String,
    pub post_content: String,
    pub pre_image: Option<String>,
}

/// Whether a pre-image is too large to journal.
pub open spec fn is_elided(pre_image: Option<String>) -> bool {
    match pre_image {
        Some(pre) => pre@.len() > MAX_PRE_IMAGE_CHARS,
        None => false,
    }
}

/// Whether a journal entry records an edit.
pub open spec fn journals(entry: PatchJournalEntry, edit: AppendPatchJournalEntry) -> bool {
    &&& entry.path == edit.path
    &&& entry.post_sha256@ == text_digest(edit.post_content@)
    &&& entry.pre_image == (if is_elided(edit.pre_image) {
        None
    } else {
        edit.pre_image
    })
    &&& entry.pre_image_elided == (if is_elided(edit.pre_image) {
        Some(true)
    } else {
        None
    })
}

/// The journal entry of an edit made at `at`.
pub fn append_patch_journal(at: &str, entry: &AppendPatchJournalEntry) -> (r: PatchJournalEntry)
    ensures
        r.at@ == at@,
        journals(r, *entry),
{
    let elided = match &entry.pre_image {
        Some(pre) => pre.as_str().unicode_len() > MAX_PRE_IMAGE_CHARS,
        None => false,
    };
    PatchJournalEntry {
        at: at.to_string(),
        path: entry.path.clone(),
        post_sha256: sha256(entry.post_content.as_str()),
        pre_image: if elided {
            None
        } else {
            clone_opt(&entry.pre_image)
        },
        pre_image_elided: if elided {
            Some(true)
        } else {
            None
        },
    }
}

// ---------------------------------------------------------------------------
// Undo
// ---------------------------------------------------------------------------

/// A journal line and the entry that it holds, where it holds one.
#[derive(Debug)]
pub struct JournalLine {
    pub raw: String,
    pub entry: Option<PatchJournalEntry>,
}

/// How the undo of one entry ended.
#[derive(Debug, PartialEq)]
pub enum UndoOutcome {
    Undone { path: String },
    Deleted { path: String },
    Refused { path: String, why: String },
    Empty,
}

/// What is to be done to a file.
#[derive(Debug, PartialEq)]
pub enum UndoAction {
    /// Leave it alone.
    Keep,
    /// Remove the file at this path.
    Delete { path: String },
    /// Write this content to the file at this path.
    Restore { path: String, content: String },
}

/// What an outcome says.
pub ghost enum OutcomeModel {
    Undone(Seq<char>),
    Deleted(Seq<char>),
    Refused(Seq<char>, Seq<char>),
    Empty,
}

impl View for UndoOutcome {
    type V = OutcomeModel;

    open spec fn view(&self) -> OutcomeModel {
        match *self {
            UndoOutcome::Undone { path } => OutcomeModel::Undone(path@),
            UndoOutcome::Deleted { path } => OutcomeModel::Deleted(path@),
            UndoOutcome::Refused { path, why } => OutcomeModel::Refused(path@, why@),
            UndoOutcome::Empty => OutcomeModel::Empty,
        }
    }
}

/// What an action does.
pub ghost enum ActionModel {
    Keep,
    Delete(Seq<char>),
    Restore(Seq<char>, Seq<char>),
}

impl View for UndoAction {
    type V = ActionModel;

    open spec fn view(&self) -> ActionModel {
        match *self {
            UndoAction::Keep => ActionModel::Keep,
            UndoAction::Delete { path } => ActionModel::Delete(path@),
            UndoAction::Restore { path, content } => ActionModel::Restore(path@, content@),
        }
    }
}

/// What the outcomes of a sequence say.
pub open spec fn outcome_models(v: Seq<UndoOutcome>) -> Seq<OutcomeModel> {
    Seq::new(v.len(), |i: int| v[i]@)
}

/// The journal lines that are left, how many entries may still be undone, and
/// the outcomes so far.
#[verifier::ext_equal]
pub ghost struct WalkModel {
    pub lines: Seq<JournalLine>,
    pub remaining: nat,
    pub outcomes: Seq<OutcomeModel>,
}

/// Why an elided entry cannot be undone.
pub open spec fn elided_reason() -> Seq<char> {
    "the pre-image was too large to journal — restore it from git instead"@
}

/// Why an entry whose file changed is not undone.
pub open spec fn changed_reason() -> Seq<char> {
    "the file changed after this patch (or was deleted) — undo would clobber newer work"@
}

impl WalkModel {
    /// The newest entry, where one may still be undone.
    pub open spec fn newest(self) -> Option<PatchJournalEntry> {
        if self.remaining == 0 || self.lines.len() == 0 {
            None
        } else {
            self.lines.last().entry
        }
    }

    /// The newest line settled with an outcome.
    pub open spec fn settled(self, outcome: OutcomeModel) -> WalkModel {
        WalkModel {
            lines: self.lines.drop_last(),
            remaining: (self.remaining - 1) as nat,
            outcomes: self.outcomes.push(outcome),
        }
    }

    /// Lines that hold no entry are dropped and elided entries refused, until
    /// the newest line holds an entry whose file must be looked at.
    pub open spec fn advanced(self) -> WalkModel
        decreases self.lines.len(),
    {
        if self.remaining == 0 || self.lines.len() == 0 {
            self
        } else {
            match self.lines.last().entry {
                None => WalkModel { lines: self.lines.drop_last(), ..self }.advanced(),
                Some(entry) => if entry.pre_image_elided == Some(true) {
                    self.settled(OutcomeModel::Refused(entry.path@, elided_reason())).advanced()
                } else {
                    self
                },
            }
        }
    }
}

impl WalkModel {
    /// The outcomes that are reported: that there was nothing to undo, where
    /// nothing was settled.
    pub open spec fn told(self) -> Seq<OutcomeModel> {
        if self.outcomes.len() == 0 {
            seq![OutcomeModel::Empty]
        } else {
            self.outcomes
        }
    }
}

/// The text of a journal of these lines.
pub open spec fn journal_text(raws: Seq<Seq<char>>) -> Seq<char> {
    if raws.len() == 0 {
        Seq::empty()
    } else {
        text::joined(raws, "\n"@) + "\n"@
    }
}

/// Whether the file is still what the patch wrote.
pub open spec fn is_unchanged(entry: PatchJournalEntry, current: Option<Seq<char>>) -> bool {
    match current {
        Some(c) => text_digest(c) == entry.post_sha256@,
        None => false,
    }
}

/// How the undo of an entry ends, given what the file holds.
pub open spec fn undo_outcome(
    entry: PatchJournalEntry,
    current: Option<Seq<char>>,
) -> OutcomeModel {
    if !is_unchanged(entry, current) {
        OutcomeModel::Refused(entry.path@, changed_reason())
    } else if entry.pre_image is None {
        OutcomeModel::Deleted(entry.path@)
    } else {
        OutcomeModel::Undone(entry.path@)
    }
}

/// What the undo of an entry does, given what the file holds.
pub open spec fn undo_action(entry: PatchJournalEntry, current: Option<Seq<char>>) -> ActionModel {
    if !is_unchanged(entry, current) {
        ActionModel::Keep
    } else {
        match entry.pre_image {
            None => ActionModel::Delete(entry.path@),
            Some(pre) => ActionModel::Restore(entry.path@, pre@),
        }
    }
}

/// A walk back through the journal. `next_path` says whose file to look at,
/// `settle` decides what is done to it, `finish` gives the outcomes and the
/// journal that is left.
pub struct UndoWalk {
    pub lines: Vec<JournalLine>,
    pub remaining: usize,
    pub outcomes: Vec<UndoOutcome>,
}

impl View for UndoWalk {
    type V = WalkModel;

    open spec fn view(&self) -> WalkModel {
        WalkModel {
            lines: self.lines@,
            remaining: self.remaining as nat,
            outcomes: outcome_models(self.outcomes@),
        }
    }
}

/// The raw texts of journal lines.
pub open spec fn raw_lines(lines: Seq<JournalLine>) -> Seq<Seq<char>> {
    Seq::new(lines.len(), |i: int| lines[i].raw@)
}

/// The lines that say anything, in their order.
pub open spec fn spoken_lines(lines: Seq<Seq<char>>) -> Seq<Seq<char>>
    decreases lines.len(),
{
    if lines.len() == 0 {
        Seq::empty()
    } else if text::is_blank(lines.last()) {
        spoken_lines(lines.drop_last())
    } else {
        spoken_lines(lines.drop_last()).push(lines.last())
    }
}

/// The records of a journal: its lines, blank ones left out.
pub fn journal_records(journal: &str) -> (r: Vec<String>)
    ensures
        text::texts(r@) == spoken_lines(text::lines(journal@)),
{
    let lines = split_lines(journal);
    let ghost all = text::texts(lines@);
    let mut out: Vec<String> = Vec::new();
    let mut i: usize = 0;
    assert(all.take(0) =~= Seq::empty());
    assert(text::texts(out@) =~= Seq::empty());
    while i < lines.len()
        invariant
            i <= lines.len(),
            all == text::texts(lines@),
            text::texts(out@) == spoken_lines(all.take(i as int)),
        decreases lines.len() - i,
    {
        broadcast use text::lemma_texts_push;

        assert(all.take(i + 1).drop_last() =~= all.take(i as int));
        if !blank(lines[i].as_str()) {
            out.push(lines[i].clone());
        }
        i = i + 1;
    }
    assert(all.take(i as int) =~= all);
    out
}

/// Starts a walk over the journal's lines that undoes at most `count` entries,
/// the newest first.
pub fn undo_last_patches(lines: Vec<JournalLine>, count: usize) -> (r: UndoWalk)
    ensures
        r@ == (WalkModel { lines: lines@, remaining: count as nat, outcomes: Seq::empty() }),
{
    let r = UndoWalk { lines, remaining: count, outcomes: Vec::new() };
    assert(r@.outcomes =~= Seq::empty());
    r
}

impl UndoWalk {
    fn record(&mut self, outcome: UndoOutcome)
        requires
            old(self)@.lines.len() > 0,
            old(self)@.remaining > 0,
        ensures
            final(self)@ == old(self)@.settled(outcome@),
    {
        let _ = self.lines.pop();
        self.remaining = self.remaining - 1;
        self.outcomes.push(outcome);
        assert(self@.lines =~= old(self)@.lines.drop_last());
        assert(self@.outcomes =~= old(self)@.outcomes.push(outcome@));
    }

    /// The path of the next entry whose file must be looked at; `None` when
    /// the walk is over.
    pub fn next_path(&mut self) -> (r: Option<String>)
        ensures
            final(self)@ == old(self)@.advanced(),
            match r {
                Some(path) => final(self)@.newest() matches Some(entry) && entry.path == path,
                None => final(self)@.newest() is None,
            },
    {
        loop
            invariant
                self@.advanced() == old(self)@.advanced(),
            decreases self.lines.len(),
        {
            if self.remaining == 0 || self.lines.len() == 0 {
                return None;
            }
            let last: usize = self.lines.len() - 1;
            let ghost before = self@;
            assert(before.lines.last() == self.lines@[last as int]);
            match &self.lines[last].entry {
                None => {
                    let _ = self.lines.pop();
                    assert(self@ =~= (WalkModel { lines: before.lines.drop_last(), ..before }));
                },
                Some(entry) => {
                    let elided = match entry.pre_image_elided {
                        Some(b) => b,
                        None => false,
                    };
                    let path = entry.path.clone();
                    if !elided {
                        return Some(path);
                    }
                    self.record(
                        UndoOutcome::Refused {
                            path,
                            why:
                                "the pre-image was too large to journal — restore it from git instead".to_string(),
                        },
                    );
                },
            }
        }
    }

    /// Settles the newest entry, given what its file holds: refused where the
    /// file moved on, else the pre-image is restored, or the file deleted
    /// where the patch created it.
    pub fn settle(&mut self, current: Option<&str>) -> (r: UndoAction)
        requires
            old(self)@.newest() is Some,
        ensures
            ({
                let entry = old(self)@.newest()->0;
                let content = match current {
                    Some(c) => Some(c@),
                    None => None,
                };
                &&& final(self)@ == old(self)@.settled(undo_outcome(entry, content))
                &&& r@ == undo_action(entry, content)
            }),
    {
        let last: usize = self.lines.len() - 1;
        let entry = match &self.lines[last].entry {
            Some(entry) => entry.clone(),
            None => {
                assert(false);
                return UndoAction::Keep;
            },
        };
        let unchanged = match current {
            Some(c) => {
                let digest = sha256(c);
                same(digest.as_str(), entry.post_sha256.as_str())
            },
            None => false,
        };
        if !unchanged {
            self.record(
                UndoOutcome::Refused {
                    path: entry.path.clone(),
                    why:
                        "the file changed after this patch (or was deleted) — undo would clobber newer work".to_string(),
                },
            );
            return UndoAction::Keep;
        }
        match entry.pre_image {
            None => {
                self.record(UndoOutcome::Deleted { path: entry.path.clone() });
                UndoAction::Delete { path: entry.path }
            },
            Some(pre) => {
                self.record(UndoOutcome::Undone { path: entry.path.clone() });
                UndoAction::Restore { path: entry.path, content: pre }
            },
        }
    }

    /// The outcomes, `Empty` where there is none, and the text of the journal
    /// that is left.
    pub fn finish(self) -> (r: (Vec<UndoOutcome>, String))
        ensures
            outcome_models(r.0@) == (if self@.outcomes.len() == 0 {
                seq![OutcomeModel::Empty]
            } else {
                self@.outcomes
            }),
            r.1@ == (if self@.lines.len() == 0 {
                Seq::empty()
            } else {
                text::joined(raw_lines(self@.lines), "\n"@) + "\n"@
            }),
            outcome_models(r.0@) == self@.told(),
            r.1@ == journal_text(raw_lines(self@.lines)),
    {
        let mut outcomes = self.outcomes;
        if outcomes.len() == 0 {
            outcomes.push(UndoOutcome::Empty);
            assert(outcome_models(outcomes@) =~= seq![OutcomeModel::Empty]);
        }
        if self.lines.len() == 0 {
            return (outcomes, String::new());
        }
        let mut raws: Vec<String> = Vec::new();
        let ghost want = raw_lines(self.lines@);
        let mut i: usize = 0;
        assert(text::texts(raws@) =~= want.take(0));
        while i < self.lines.len()
            invariant
                i <= self.lines.len(),
                want == raw_lines(self.lines@),
                text::texts(raws@) == want.take(i as int),
            decreases self.lines.len() - i,
        {
            broadcast use text::lemma_texts_push;

            raws.push(self.lines[i].raw.clone());
            assert(want.take(i + 1) =~= want.take(i as int).push(want[i as int]));
            i = i + 1;
        }
        assert(want.take(i as int) =~= want);
        let body = join_texts(&raws, "\n");
        (outcomes, concat2(body.as_str(), "\n"))
    }
}

// ---------------------------------------------------------------------------
// Laws
// ---------------------------------------------------------------------------

/// Undo gives back what an edit replaced: of a file that still holds what the
/// recorded edit wrote, the pre-image is restored, or the file deleted where
/// the edit created it.
pub proof fn law_undo_restores_the_pre_image(
    entry: PatchJournalEntry,
    edit: AppendPatchJournalEntry,
)
    requires
        journals(entry, edit),
        !is_elided(edit.pre_image),
    ensures
        undo_action(entry, Some(edit.post_content@)) == (match edit.pre_image {
            Some(pre) => ActionModel::Restore(edit.path@, pre@),
            None => ActionModel::Delete(edit.path@),
        }),
{
}

/// An edit whose pre-image was too large is refused, and its file not even
/// looked at.
pub proof fn law_elided_edits_are_refused(
    w: WalkModel,
    entry: PatchJournalEntry,
    edit: AppendPatchJournalEntry,
)
    requires
        journals(entry, edit),
        is_elided(edit.pre_image),
        w.remaining > 0,
        w.lines.len() > 0,
        w.lines.last().entry == Some(entry),
    ensures
        w.advanced() == w.settled(
            OutcomeModel::Refused(edit.path@, elided_reason()),
        ).advanced(),
{
}

/// A file that changed after the patch, or is gone, is never touched.
pub proof fn law_changed_files_are_never_touched(
    entry: PatchJournalEntry,
    current: Option<Seq<char>>,
)
    requires
        !is_unchanged(entry, current),
    ensures
        undo_action(entry, current) is Keep,
        undo_outcome(entry, current) is Refused,
{
}

/// Advancing only removes lines from the journal's end, never adds one, and
/// never undoes more than was asked for.
pub proof fn law_the_walk_goes_back_in_order(w: WalkModel)
    ensures
        w.advanced().lines == w.lines.take(w.advanced().lines.len() as int),
        w.advanced().lines.len() <= w.lines.len(),
        w.advanced().remaining + w.advanced().outcomes.len() == w.remaining + w.outcomes.len(),
        w.advanced().newest() is None ==> w.advanced().remaining == 0 || w.advanced().lines.len() == 0,
    decreases w.lines.len(),
{
    if w.remaining == 0 || w.lines.len() == 0 {
        assert(w.lines.take(w.lines.len() as int) =~= w.lines);
    } else {
        let next = match w.lines.last().entry {
            None => WalkModel { lines: w.lines.drop_last(), ..w },
            Some(entry) => if entry.pre_image_elided == Some(true) {
                w.settled(OutcomeModel::Refused(entry.path@, elided_reason()))
            } else {
                w
            },
        };
        if next.lines.len() < w.lines.len() {
            law_the_walk_goes_back_in_order(next);
            let n = w.advanced().lines.len() as int;
            assert(next.lines.take(n) =~= w.lines.take(n));
        } else {
            assert(w.lines.take(w.lines.len() as int) =~= w.lines);
        }
    }
}

/// The files after an action.
pub open spec fn acted(
    files: Map<Seq<char>, Seq<char>>,
    action: ActionModel,
) -> Map<Seq<char>, Seq<char>> {
    match action {
        ActionModel::Keep => files,
        ActionModel::Delete(path) => files.remove(path),
        ActionModel::Restore(path, content) => files.insert(path, content),
    }
}

/// What a file holds, where it exists.
pub open spec fn content_of(
    files: Map<Seq<char>, Seq<char>>,
    path: Seq<char>,
) -> Option<Seq<char>> {
    if files.dom().contains(path) {
        Some(files[path])
    } else {
        None
    }
}

/// The walk carried to its end, and the files it leaves, when every action is
/// carried out.
pub open spec fn walked(
    w: WalkModel,
    files: Map<Seq<char>, Seq<char>>,
) -> (WalkModel, Map<Seq<char>, Seq<char>>)
    decreases w.lines.len(),
{
    proof {
        law_the_walk_goes_back_in_order(w);
    }
    let a = w.advanced();
    match a.newest() {
        None => (a, files),
        Some(entry) => {
            let current = content_of(files, entry.path@);
            walked(
                a.settled(undo_outcome(entry, current)),
                acted(files, undo_action(entry, current)),
            )
        },
    }
}

/// Whether a line records that `post` was written to `path` over `files`.
pub open spec fn records(
    line: JournalLine,
    files: Map<Seq<char>, Seq<char>>,
    path: Seq<char>,
    post: Seq<char>,
) -> bool {
    &&& line.entry is Some
    &&& line.entry->0.path@ == path
    &&& line.entry->0.post_sha256@ == text_digest(post)
    &&& line.entry->0.pre_image_elided != Some(true)
    &&& content_of(files, path) == (match line.entry->0.pre_image {
        Some(pre) => Some(pre@),
        None => None,
    })
}

/// The files after a sequence of writes.
pub open spec fn written(
    files: Map<Seq<char>, Seq<char>>,
    edits: Seq<(Seq<char>, Seq<char>)>,
) -> Map<Seq<char>, Seq<char>>
    decreases edits.len(),
{
    if edits.len() == 0 {
        files
    } else {
        written(files, edits.drop_last()).insert(edits.last().0, edits.last().1)
    }
}

/// Walking a journal of edits all the way back leaves the files as they were
/// before the first of them, and an empty journal.
pub proof fn law_walking_back_undoes_every_edit(
    files: Map<Seq<char>, Seq<char>>,
    edits: Seq<(Seq<char>, Seq<char>)>,
    w: WalkModel,
)
    requires
        w.lines.len() == edits.len(),
        w.remaining >= edits.len(),
        forall|i: int|
            0 <= i < edits.len() ==> records(
                #[trigger] w.lines[i],
                written(files, edits.take(i)),
                edits[i].0,
                edits[i].1,
            ),
    ensures
        walked(w, written(files, edits)).1 == files,
        walked(w, written(files, edits)).0.lines.len() == 0,
    decreases edits.len(),
{
    if edits.len() > 0 {
        let n = edits.len() - 1;
        let (path, post) = edits.last();
        let before = written(files, edits.drop_last());
        let after = written(files, edits);
        assert(edits.take(n) =~= edits.drop_last());
        assert(records(w.lines[n], before, path, post));
        let entry = w.lines.last().entry->0;
        let next = w.settled(undo_outcome(entry, content_of(after, path)));
        assert(w.advanced() == w);
        assert(content_of(after, path) == Some(post));
        assert(acted(after, undo_action(entry, Some(post))) =~= before);
        assert forall|i: int| 0 <= i < edits.drop_last().len() implies records(
            #[trigger] next.lines[i],
            written(files, edits.drop_last().take(i)),
            edits.drop_last()[i].0,
            edits.drop_last()[i].1,
        ) by {
            assert(next.lines[i] == w.lines[i]);
            assert(edits.drop_last().take(i) =~= edits.take(i));
        }
        law_walking_back_undoes_every_edit(files, edits.drop_last(), next);
    }
}

/// Newer work is safe: where the digest of what the file holds now is not the
/// one recorded of the patch, nothing is done to the file and the undo is
/// refused, whether the patch created the file or replaced its content. The
/// same holds of a file that is gone.
pub proof fn law_newer_work_is_never_destroyed(entry: PatchJournalEntry, content: Seq<char>)
    ensures
        hex(sha256_digest(vstd::utf8::encode_utf8(content))) != entry.post_sha256@ ==> {
            &&& undo_action(entry, Some(content)) == ActionModel::Keep
            &&& undo_outcome(entry, Some(content)) == OutcomeModel::Refused(
                entry.path@,
                "the file changed after this patch (or was deleted) — undo would clobber newer work"@,
            )
        },
        undo_action(entry, None) == ActionModel::Keep,
        undo_outcome(entry, None) == OutcomeModel::Refused(
            entry.path@,
            "the file changed after this patch (or was deleted) — undo would clobber newer work"@,
        ),
{
}

/// Where the digest of what the file holds is the recorded one, the undo goes
/// through: a file that the patch created is deleted, any other gets back its
/// previous content, and the outcome tells which of the two was done.
pub proof fn law_a_file_left_alone_is_undone(entry: PatchJournalEntry, content: Seq<char>)
    requires
        hex(sha256_digest(vstd::utf8::encode_utf8(content))) == entry.post_sha256@,
    ensures
        entry.pre_image is None ==> {
            &&& undo_action(entry, Some(content)) == ActionModel::Delete(entry.path@)
            &&& undo_outcome(entry, Some(content)) == OutcomeModel::Deleted(entry.path@)
        },
        entry.pre_image is Some ==> {
            &&& undo_action(entry, Some(content)) == ActionModel::Restore(
                entry.path@,
                entry.pre_image->0@,
            )
            &&& undo_outcome(entry, Some(content)) == OutcomeModel::Undone(entry.path@)
        },
{
}

/// The recorded digest is that of the whole content, byte for byte, each byte
/// written with two hexadecimal digits in small letters, the higher one first.
pub proof fn law_a_digest_spells_its_bytes(bytes: Seq<u8>, i: int)
    requires
        0 <= i < bytes.len(),
    ensures
        hex(bytes).len() == 2 * bytes.len(),
        hex(bytes)[2 * i] == "0123456789abcdef"@[bytes[i] as int / 16],
        hex(bytes)[2 * i + 1] == "0123456789abcdef"@[bytes[i] as int % 16],
    decreases bytes.len(),
{
    reveal_strlit("0123456789abcdef");
    let last = bytes.len() - 1;
    lemma_hex_length(bytes);
    if i < last {
        law_a_digest_spells_its_bytes(bytes.drop_last(), i);
    } else {
        lemma_hex_length(bytes.drop_last());
    }
}

proof fn lemma_hex_length(bytes: Seq<u8>)
    ensures
        hex(bytes).len() == 2 * bytes.len(),
    decreases bytes.len(),
{
    if bytes.len() > 0 {
        lemma_hex_length(bytes.drop_last());
    }
}

/// What is written down of an edit: its path, the digest of what it wrote, and
/// the whole previous content, unless that is longer than a million
/// characters: such an entry says that the content was left out.
pub proof fn law_an_edit_is_recorded_whole(entry: PatchJournalEntry, edit: AppendPatchJournalEntry)
    requires
        journals(entry, edit),
    ensures
        entry.path@ == edit.path@,
        entry.post_sha256@ == hex(
            sha256_digest(vstd::utf8::encode_utf8(edit.post_content@)),
        ),
        edit.pre_image is None ==> entry.pre_image is None && entry.pre_image_elided is None,
        edit.pre_image is Some && edit.pre_image->0@.len() <= 1_000_000 ==> {
            &&& entry.pre_image is Some
            &&& entry.pre_image->0@ == edit.pre_image->0@
            &&& entry.pre_image_elided is None
        },
        edit.pre_image is Some && edit.pre_image->0@.len() > 1_000_000 ==> {
            &&& entry.pre_image is None
            &&& entry.pre_image_elided == Some(true)
        },
{
}

/// Settling an entry takes its line, the last one, out of the journal, uses up
/// one of the undos asked for, and adds its outcome behind the others. Every
/// other line and outcome stays.
pub proof fn law_a_settled_entry_leaves_the_journal(w: WalkModel, outcome: OutcomeModel)
    requires
        w.lines.len() > 0,
        w.remaining > 0,
    ensures
        w.lines == w.settled(outcome).lines.push(w.lines.last()),
        w.remaining == w.settled(outcome).remaining + 1,
        w.settled(outcome).outcomes == w.outcomes.push(outcome),
{
    assert(w.lines =~= w.lines.drop_last().push(w.lines.last()));
}

/// What advancing passes over: the lines behind the one where it stops hold no
/// entry, or one whose pre-image was left out. Each of the latter is refused
/// and nothing else is settled. It stops at the newest entry that can be
/// undone, where one is left to look at.
pub proof fn law_advancing_skips_no_entry(w: WalkModel)
    ensures
        ({
            let a = w.advanced();
            &&& a.lines.len() <= w.lines.len()
            &&& forall|i: int|
                a.lines.len() <= i < w.lines.len() ==> ((#[trigger] w.lines[i]).entry is None
                    || w.lines[i].entry->0.pre_image_elided == Some(true))
            &&& a.outcomes.len() >= w.outcomes.len()
            &&& a.outcomes.take(w.outcomes.len() as int) == w.outcomes
            &&& forall|k: int|
                w.outcomes.len() <= k < a.outcomes.len() ==> ((#[trigger] a.outcomes[k]) matches
                    OutcomeModel::Refused(_, why) && why
                    == "the pre-image was too large to journal — restore it from git instead"@)
            &&& a.newest() matches Some(entry) ==> entry.pre_image_elided != Some(true)
                && w.lines[a.lines.len() - 1].entry == Some(entry)
            &&& a.newest() is None ==> a.remaining == 0 || a.lines.len() == 0
        }),
    decreases w.lines.len(),
{
    law_the_walk_goes_back_in_order(w);
    if w.remaining == 0 || w.lines.len() == 0 {
        assert(w.outcomes.take(w.outcomes.len() as int) =~= w.outcomes);
    } else {
        match w.lines.last().entry {
            None => {
                let next = WalkModel { lines: w.lines.drop_last(), ..w };
                law_advancing_skips_no_entry(next);
                assert forall|i: int| w.advanced().lines.len() <= i < w.lines.len() implies ((
                #[trigger] w.lines[i]).entry is None || w.lines[i].entry->0.pre_image_elided
                    == Some(true)) by {
                    if i < next.lines.len() {
                        assert(next.lines[i] == w.lines[i]);
                    }
                }
            },
            Some(entry) => {
                if entry.pre_image_elided == Some(true) {
                    let refused = OutcomeModel::Refused(entry.path@, elided_reason());
                    let next = w.settled(refused);
                    law_advancing_skips_no_entry(next);
                    let a = w.advanced();
                    assert forall|i: int| a.lines.len() <= i < w.lines.len() implies ((
                    #[trigger] w.lines[i]).entry is None || w.lines[i].entry->0.pre_image_elided
                        == Some(true)) by {
                        if i < next.lines.len() {
                            assert(next.lines[i] == w.lines[i]);
                        }
                    }
                    let n = w.outcomes.len() as int;
                    assert(a.outcomes.take(n + 1)[n] == refused);
                    assert(a.outcomes.take(n) =~= a.outcomes.take(n + 1).take(n));
                    assert(w.outcomes.push(refused).take(n) =~= w.outcomes);
                } else {
                    assert(w.outcomes.take(w.outcomes.len() as int) =~= w.outcomes);
                }
            },
        }
    }
}

/// Where the journal is kept: in the nearest directory that holds a `.drip`.
/// Where none does, in the nearest that holds a `.git`; where none does that
/// either, in the directory where the search began.
pub proof fn law_the_nearest_project_keeps_the_journal(
    start: Seq<char>,
    dirs: Seq<JournalDir>,
    n: int,
)
    requires
        0 <= n <= dirs.len(),
    ensures
        n < dirs.len() && dirs[n].has_drip && (forall|j: int|
            0 <= j < n ==> !(#[trigger] dirs[j]).has_drip) ==> journal_root(start, dirs)
            == dirs[n].path@,
        n < dirs.len() && dirs[n].has_git && (forall|j: int|
            0 <= j < n ==> !(#[trigger] dirs[j]).has_git) && (forall|j: int|
            0 <= j < dirs.len() ==> !(#[trigger] dirs[j]).has_drip) ==> journal_root(start, dirs)
            == dirs[n].path@,
        (forall|j: int|
            0 <= j < dirs.len() ==> !(#[trigger] dirs[j]).has_drip && !dirs[j].has_git)
            ==> journal_root(start, dirs) == start,
{
    lemma_first_marker(dirs, n);
    lemma_no_marker(dirs);
}

proof fn lemma_first_marker(dirs: Seq<JournalDir>, n: int)
    requires
        0 <= n <= dirs.len(),
    ensures
        n < dirs.len() && dirs[n].has_drip && (forall|j: int|
            0 <= j < n ==> !(#[trigger] dirs[j]).has_drip) ==> first_with_drip(dirs) == Some(n),
        n < dirs.len() && dirs[n].has_git && (forall|j: int|
            0 <= j < n ==> !(#[trigger] dirs[j]).has_git) ==> first_with_git(dirs) == Some(n),
    decreases dirs.len(),
{
    if n < dirs.len() {
        let rest = dirs.drop_last();
        assert(forall|j: int| 0 <= j < rest.len() ==> rest[j] == #[trigger] dirs[j]);
        if n < rest.len() {
            lemma_first_marker(rest, n);
        } else {
            lemma_no_marker(rest);
        }
    }
}

proof fn lemma_no_marker(dirs: Seq<JournalDir>)
    ensures
        (forall|j: int| 0 <= j < dirs.len() ==> !(#[trigger] dirs[j]).has_drip)
            ==> first_with_drip(dirs) is None,
        (forall|j: int| 0 <= j < dirs.len() ==> !(#[trigger] dirs[j]).has_git)
            ==> first_with_git(dirs) is None,
    decreases dirs.len(),
{
    if dirs.len() > 0 {
        let rest = dirs.drop_last();
        assert(forall|j: int| 0 <= j < rest.len() ==> rest[j] == #[trigger] dirs[j]);
        lemma_no_marker(rest);
    }
}

/// The journal of a project is the file `patches.jsonl` in its `.drip`
/// directory.
pub proof fn law_the_journal_lies_in_the_project(root: Seq<char>)
    requires
        root.len() > 0,
        root.last() != '/',
    ensures
        path_under(path_under(root, ".drip"@), "patches.jsonl"@) == root
            + "/.drip/patches.jsonl"@,
{
    reveal_strlit("/");
    reveal_strlit(".drip");
    reveal_strlit("patches.jsonl");
    reveal_strlit("/.drip/patches.jsonl");
    assert(!text::ends_in(root, "/"@)) by {
        assert(root.skip(root.len() - 1)[0] == root.last());
    }
    let dir = root + "/"@ + ".drip"@;
    assert(!text::ends_in(dir, "/"@)) by {
        assert(dir.skip(dir.len() - 1)[0] == 'p');
    }
    assert(dir + "/"@ + "patches.jsonl"@ =~= root + "/.drip/patches.jsonl"@);
}

/// Every line of the journal that says anything is a record, in its place;
/// lines of white space are none.
pub proof fn law_only_blank_lines_are_no_records(lines: Seq<Seq<char>>)
    ensures
        spoken_lines(lines) == lines.filter(
            |line: Seq<char>| exists|i: int| 0 <= i < line.len() && !text::is_space(#[trigger] line[i]),
        ),
    decreases lines.len(),
{
    let says = |line: Seq<char>|
        exists|i: int| 0 <= i < line.len() && !text::is_space(#[trigger] line[i]);
    reveal(Seq::filter);
    if lines.len() > 0 {
        law_only_blank_lines_are_no_records(lines.drop_last());
        text::law_blank_is_all_space(lines.last());
        assert(says(lines.last()) == !text::is_blank(lines.last()));
    } else {
        assert(spoken_lines(lines) =~= lines.filter(says));
    }
}

/// The journal reads back as it was written: the lines that are left are the
/// lines of its text, in order.
pub proof fn law_the_journal_reads_back(raws: Seq<Seq<char>>)
    requires
        forall|i: int| 0 <= i < raws.len() ==> !(#[trigger] raws[i]).contains('\n'),
        forall|i: int|
            0 <= i < raws.len() && (#[trigger] raws[i]).len() > 0 ==> raws[i].last() != '\r',
    ensures
        text::lines(journal_text(raws)) == raws,
        raws.len() == 0 ==> journal_text(raws).len() == 0,
    decreases raws.len(),
{
    reveal_strlit("\n");
    assert("\n"@ =~= seq!['\n']);
    if raws.len() == 0 {
        text::law_a_text_without_line_feed_is_one_line(journal_text(raws));
        assert(text::lines(journal_text(raws)) =~= raws);
    } else {
        let rest = raws.skip(1);
        assert forall|i: int| 0 <= i < rest.len() implies !(#[trigger] rest[i]).contains('\n')
            && (rest[i].len() > 0 ==> rest[i].last() != '\r') by {
            assert(rest[i] == raws[i + 1]);
        }
        law_the_journal_reads_back(rest);
        lemma_journal_front(raws);
        text::law_a_line_feed_ends_a_line(raws[0], journal_text(rest));
        assert(seq![raws[0]] + rest =~= raws);
    }
}

proof fn lemma_journal_front(raws: Seq<Seq<char>>)
    requires
        raws.len() > 0,
    ensures
        journal_text(raws) == raws[0] + seq!['\n'] + journal_text(raws.skip(1)),
    decreases raws.len(),
{
    reveal_strlit("\n");
    assert("\n"@ =~= seq!['\n']);
    if raws.len() == 1 {
        assert(raws.skip(1) =~= Seq::empty());
        assert(journal_text(raws) =~= raws[0] + seq!['\n'] + journal_text(raws.skip(1)));
    } else {
        let init = raws.drop_last();
        lemma_journal_front(init);
        assert(init.skip(1) =~= raws.skip(1).drop_last());
        assert(journal_text(raws) =~= journal_text(init) + raws.last() + "\n"@);
        if init.len() == 1 {
            assert(raws.skip(1) =~= seq![raws[1]]);
            assert(init.skip(1) =~= Seq::empty());
            assert(text::joined(raws.skip(1), "\n"@) == raws[1]);
        } else {
            assert(journal_text(raws.skip(1)) =~= journal_text(init.skip(1)) + raws.last() + "\n"@);
        }
        assert(journal_text(raws) =~= raws[0] + seq!['\n'] + journal_text(raws.skip(1)));
    }
}

/// Every outcome is reported, in order; that there was nothing to undo is said
/// only where nothing was settled.
pub proof fn law_every_outcome_is_reported(w: WalkModel)
    ensures
        w.outcomes.len() > 0 ==> w.told() == w.outcomes,
        w.outcomes.len() == 0 ==> w.told() == seq![OutcomeModel::Empty],
{
}

/// An outcome and an action are what they are called: their paths, reasons and
/// contents are those that they carry.
pub proof fn law_outcomes_and_actions_say_what_they_are(
    path: String,
    why: String,
    v: Seq<UndoOutcome>,
    i: int,
)
    ensures
        (UndoOutcome::Undone { path })@ == OutcomeModel::Undone(path@),
        (UndoOutcome::Deleted { path })@ == OutcomeModel::Deleted(path@),
        (UndoOutcome::Refused { path, why })@ == OutcomeModel::Refused(path@, why@),
        UndoOutcome::Empty@ == OutcomeModel::Empty,
        UndoAction::Keep@ == ActionModel::Keep,
        (UndoAction::Delete { path })@ == ActionModel::Delete(path@),
        (UndoAction::Restore { path, content: why })@ == ActionModel::Restore(path@, why@),
        outcome_models(v).len() == v.len(),
        0 <= i < v.len() ==> outcome_models(v)[i] == v[i]@,
{
}

/// A walk begins with the whole journal, and holds what it is said to hold.
pub proof fn law_a_walk_holds_its_lines(w: UndoWalk, i: int)
    ensures
        w@.lines == w.lines@,
        w@.remaining == w.remaining,
        w@.outcomes.len() == w.outcomes@.len(),
        0 <= i < w.outcomes@.len() ==> w@.outcomes[i] == w.outcomes@[i]@,
        0 <= i < w.lines@.len() ==> raw_lines(w.lines@)[i] == w.lines@[i].raw@,
        raw_lines(w.lines@).len() == w.lines@.len(),
{
}

/// What carrying out an action does to the files: nothing, or it takes out the
/// one file, or it writes the one file. All others stay.
pub proof fn law_an_action_touches_its_own_file(
    files: Map<Seq<char>, Seq<char>>,
    path: Seq<char>,
    content: Seq<char>,
    other: Seq<char>,
)
    requires
        other != path,
    ensures
        acted(files, ActionModel::Keep) == files,
        content_of(acted(files, ActionModel::Delete(path)), path) is None,
        content_of(acted(files, ActionModel::Restore(path, content)), path) == Some(content),
        content_of(acted(files, ActionModel::Delete(path)), other) == content_of(files, other),
        content_of(acted(files, ActionModel::Restore(path, content)), other) == content_of(
            files,
            other,
        ),
{
}

/// A path under a directory has one slash between the two, and none where there
/// is no directory.
pub proof fn law_a_path_has_one_slash_between_its_parts(base: Seq<char>, leaf: Seq<char>)
    ensures
        base.len() == 0 ==> path_under(base, leaf) == leaf,
        base.len() > 0 && base.last() == '/' ==> path_under(base, leaf) == base + leaf,
        base.len() > 0 && base.last() != '/' ==> path_under(base, leaf) == base + seq!['/'] + leaf,
{
    reveal_strlit("/");
    assert("/"@ =~= seq!['/']);
    if base.len() > 0 {
        assert(base.skip(base.len() - 1) =~= seq![base.last()]);
        assert(seq![base.last()][0] == base.last());
    }
}

} // verus!
