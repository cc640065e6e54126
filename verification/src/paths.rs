//! Paths as texts, their parts set apart by slashes.

use vstd::prelude::*;
use crate::text::{chars_of, concat2, concat3, sub_string};

verus! {

/// `path` without what names nothing at its end: slashes, and parts that are a
/// single dot. The root keeps its slash.
pub open spec fn bare(path: Seq<char>) -> Seq<char>
    decreases path.len(),
{
    let n = path.len() as int;
    if n > 1 && path[n - 1] == '/' {
        bare(path.drop_last())
    } else if n > 1 && path[n - 1] == '.' && path[n - 2] == '/' {
        bare(path.drop_last())
    } else {
        path
    }
}

/// How many characters stand up to the last slash, with it; none where there is
/// no slash.
pub open spec fn through_last_slash(path: Seq<char>) -> nat
    decreases path.len(),
{
    if path.len() == 0 || path.last() == '/' {
        path.len()
    } else {
        through_last_slash(path.drop_last())
    }
}

/// Whether `part` can be a file's name: not empty, and not the parts that stand
/// for this directory and the one above.
pub open spec fn is_file_name(part: Seq<char>) -> bool {
    part.len() > 0 && part != seq!['.'] && part != seq!['.', '.']
}

/// `name` in the directory `base`.
pub open spec fn within(base: Seq<char>, name: Seq<char>) -> Seq<char> {
    if base.len() == 0 || base.last() == '/' {
        base + name
    } else {
        base + "/"@ + name
    }
}

/// The path of `name` beside the file at `path`; where `path` names no file, in
/// the directory that it names.
pub open spec fn beside(path: Seq<char>, name: Seq<char>) -> Seq<char> {
    let whole = bare(path);
    let n = through_last_slash(whole) as int;
    if is_file_name(whole.skip(n)) {
        within(bare(whole.take(n)), name)
    } else {
        within(path, name)
    }
}

fn bare_length(x: &Vec<char>, len: usize) -> (r: usize)
    requires
        len <= x.len(),
    ensures
        r <= len,
        x@.take(r as int) == bare(x@.take(len as int)),
{
    let mut n: usize = len;
    while n > 1 && (x[n - 1] == '/' || (x[n - 1] == '.' && x[n - 2] == '/'))
        invariant
            n <= len <= x.len(),
            bare(x@.take(n as int)) == bare(x@.take(len as int)),
        decreases n,
    {
        assert(x@.take(n as int).drop_last() =~= x@.take(n - 1));
        n = n - 1;
    }
    n
}

fn slash_length(x: &Vec<char>, len: usize) -> (r: usize)
    requires
        len <= x.len(),
    ensures
        r <= len,
        r == through_last_slash(x@.take(len as int)),
{
    let mut n: usize = len;
    while n > 0 && x[n - 1] != '/'
        invariant
            n <= len <= x.len(),
            through_last_slash(x@.take(n as int)) == through_last_slash(x@.take(len as int)),
        decreases n,
    {
        assert(x@.take(n as int).drop_last() =~= x@.take(n - 1));
        n = n - 1;
    }
    n
}

/// The path of `name` beside the file at `path`.
pub fn with_file_name(path: &str, name: &str) -> (r: String)
    ensures
        r@ == beside(path@, name@),
{
    let x = chars_of(path);
    assert(x@.take(x@.len() as int) =~= x@);
    let end: usize = bare_length(&x, x.len());
    let start: usize = slash_length(&x, end);
    let ghost part = x@.take(end as int).skip(start as int);
    let dot = end - start == 1 && x[start] == '.';
    let dots = end - start == 2 && x[start] == '.' && x[start + 1] == '.';
    assert(part.len() == end - start);
    assert(forall|i: int| 0 <= i < part.len() ==> part[i] == x@[start + i]);
    assert(dot ==> part =~= seq!['.']);
    assert(part == seq!['.'] ==> part.len() == 1 && part[0] == '.');
    assert(dots ==> part =~= seq!['.', '.']);
    assert(part == seq!['.', '.'] ==> part.len() == 2 && part[0] == '.' && part[1] == '.');
    assert(x@.take(end as int).take(start as int) =~= x@.take(start as int));
    let kept: usize = if end > start && !dot && !dots {
        bare_length(&x, start)
    } else {
        x.len()
    };
    let base = sub_string(&x, 0, kept);
    assert(base@ =~= x@.take(kept as int));
    if kept == 0 || x[kept - 1] == '/' {
        concat2(base.as_str(), name)
    } else {
        concat3(base.as_str(), "/", name)
    }
}

/// A file beside one in a directory stands in that directory.
pub proof fn law_files_stand_side_by_side(dir: Seq<char>, file: Seq<char>, name: Seq<char>)
    requires
        dir.len() > 0,
        bare(dir) == dir,
        dir.last() != '/',
        is_file_name(file),
        forall|i: int| 0 <= i < file.len() ==> #[trigger] file[i] != '/',
    ensures
        beside(dir + "/"@ + file, name) == dir + "/"@ + name,
{
    reveal_strlit("/");
    assert("/"@ =~= seq!['/']);
    let path = dir + "/"@ + file;
    let n = path.len() as int;
    assert(path[n - 1] == file[file.len() - 1]);
    if file.len() == 1 {
        if file[0] == '.' {
            assert(file =~= seq!['.']);
        }
    } else {
        assert(path[n - 2] == file[file.len() - 2]);
    }
    assert(bare(path) == path);
    lemma_last_slash(dir + "/"@, file);
    let k = dir.len() as int + 1;
    assert(path.take(k) =~= dir + "/"@);
    assert(path.skip(k) =~= file);
    assert((dir + "/"@).drop_last() =~= dir);
}

proof fn lemma_last_slash(base: Seq<char>, file: Seq<char>)
    requires
        base.len() > 0,
        base.last() == '/',
        forall|i: int| 0 <= i < file.len() ==> #[trigger] file[i] != '/',
    ensures
        through_last_slash(base + file) == base.len(),
    decreases file.len(),
{
    if file.len() == 0 {
        assert(base + file =~= base);
    } else {
        assert((base + file).last() == file[file.len() - 1]);
        assert((base + file).drop_last() =~= base + file.drop_last());
        lemma_last_slash(base, file.drop_last());
    }
}

/// Beside a file that is named without a directory stands the bare name, and
/// beside one in the root the name in the root.
pub proof fn law_a_bare_file_has_a_bare_neighbour(file: Seq<char>, name: Seq<char>)
    requires
        is_file_name(file),
        forall|i: int| 0 <= i < file.len() ==> #[trigger] file[i] != '/',
    ensures
        beside(file, name) == name,
        beside(seq!['/'] + file, name) == seq!['/'] + name,
        file.len() > 0 && file != seq!['.'] && file != seq!['.', '.'],
{
    lemma_no_slash(file);
    assert(bare(file) == file) by {
        assert(file[file.len() - 1] != '/');
        if file.len() > 1 {
            assert(file[file.len() - 2] != '/');
        }
    }
    assert(file.skip(0) =~= file);
    assert(file.take(0) =~= Seq::empty());
    assert(bare(Seq::empty()) =~= Seq::empty());
    assert(Seq::<char>::empty() + name =~= name);
    let rooted = seq!['/'] + file;
    let n = rooted.len() as int;
    assert(rooted[n - 1] == file[file.len() - 1]);
    if file.len() > 1 {
        assert(rooted[n - 2] == file[file.len() - 2]);
    } else if file[0] == '.' {
        assert(file =~= seq!['.']);
    }
    assert(bare(rooted) == rooted);
    lemma_last_slash(seq!['/'], file);
    assert(rooted.take(1) =~= seq!['/']);
    assert(rooted.skip(1) =~= file);
}

proof fn lemma_no_slash(path: Seq<char>)
    requires
        forall|i: int| 0 <= i < path.len() ==> #[trigger] path[i] != '/',
    ensures
        through_last_slash(path) == 0,
    decreases path.len(),
{
    if path.len() > 0 {
        assert(path[path.len() - 1] != '/');
        lemma_no_slash(path.drop_last());
    }
}

} // verus!
