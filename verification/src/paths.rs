//! Paths as text.
//!
//! A path is a string whose components are separated by `/`; it is absolute
//! when it begins with `/`. Nothing here looks at a file system: every
//! function is a transform of the characters it is given.

use vstd::prelude::*;
use vstd::string::StringExecFns;
use crate::text::{chars_of, string_of};

verus! {

/// Whether `path` begins at the root.
pub open spec fn is_absolute(path: Seq<char>) -> bool {
    path.len() > 0 && path[0] == '/'
}

/// `path` placed under `base`. An absolute `path` stands for itself;
/// otherwise one separator stands between the two, unless `base` is empty or
/// already ends in one.
pub open spec fn joined(base: Seq<char>, path: Seq<char>) -> Seq<char> {
    if is_absolute(path) {
        path
    } else if base.len() == 0 || base.last() == '/' {
        base + path
    } else {
        base + seq!['/'] + path
    }
}

/// `path` as an absolute path, for a process whose working directory is
/// `cwd`.
pub open spec fn resolved(path: Seq<char>, cwd: Seq<char>) -> Seq<char> {
    if is_absolute(path) {
        path
    } else {
        joined(cwd, path)
    }
}

/// Places `path` under `base`.
pub fn join(base: &str, path: &str) -> (out: String)
    ensures
        out@ == joined(base@, path@),
{
    let path_chars = chars_of(path);
    if path_chars.len() > 0 && path_chars[0] == '/' {
        return String::from_str(path);
    }
    let base_chars = chars_of(base);
    let mut out = String::from_str(base);
    if base_chars.len() > 0 && base_chars[base_chars.len() - 1] != '/' {
        out.push('/');
    }
    out.append(path);
    out
}

/// Resolves a possibly relative path against the working directory `cwd`.
/// An absolute path comes back unchanged.
pub fn resolve_relative(relative: String, cwd: &str) -> (absolute: String)
    ensures
        absolute@ == resolved(relative@, cwd@),
{
    let chars = chars_of(relative.as_str());
    if chars.len() > 0 && chars[0] == '/' {
        relative
    } else {
        join(cwd, relative.as_str())
    }
}

/// Resolving is idempotent while the working directory stays the same:
/// what one call returns, a second call returns unchanged.
pub proof fn lemma_resolve_idempotent(path: Seq<char>, cwd: Seq<char>)
    requires
        is_absolute(cwd),
    ensures
        is_absolute(resolved(path, cwd)),
        resolved(resolved(path, cwd), cwd) == resolved(path, cwd),
{
}

/// The length of `path` once the separators and `.` segments at its end
/// are cut off. A path of one character is left as it is.
pub open spec fn trimmed_len(path: Seq<char>) -> nat
    decreases path.len(),
{
    if path.len() > 1 && (path.last() == '/' || (path.last() == '.' && path[path.len() - 2]
        == '/')) {
        trimmed_len(path.drop_last())
    } else {
        path.len()
    }
}

/// `path` without the separators and `.` segments at its end.
pub open spec fn trimmed(path: Seq<char>) -> Seq<char> {
    path.take(trimmed_len(path) as int)
}

/// The index of the last separator in `path`, or -1 where it has none.
pub open spec fn last_separator(path: Seq<char>) -> int
    decreases path.len(),
{
    if path.len() == 0 {
        -1
    } else if path.last() == '/' {
        path.len() - 1
    } else {
        last_separator(path.drop_last())
    }
}

/// The last component of `path`, as it is written.
pub open spec fn final_component(path: Seq<char>) -> Seq<char> {
    trimmed(path).skip(last_separator(trimmed(path)) + 1)
}

/// The name of the file or directory that `path` leads to: its last
/// component. The root, the empty path and a path that ends in `.` or `..`
/// name none.
pub open spec fn file_name(path: Seq<char>) -> Option<Seq<char>> {
    let name = final_component(path);
    if name.len() == 0 || name == seq!['.'] || name == seq!['.', '.'] {
        None
    } else {
        Some(name)
    }
}

/// What stands in `path` before its last component, the separator
/// included. It is empty where the path is a single component.
pub open spec fn parent_prefix(path: Seq<char>) -> Seq<char> {
    trimmed(path).take(last_separator(trimmed(path)) + 1)
}

/// The directory that holds what `path` leads to. The root, the empty path
/// and a single component have none.
pub open spec fn parent_dir(path: Seq<char>) -> Option<Seq<char>> {
    let t = trimmed(path);
    let at = last_separator(t);
    if at < 0 || at + 1 == t.len() {
        None
    } else if at == 0 {
        Some(seq!['/'])
    } else {
        Some(t.take(at))
    }
}

/// No separator stands after the last one.
proof fn lemma_last_separator(path: Seq<char>)
    ensures
        -1 <= last_separator(path) < path.len(),
        forall|i: int| last_separator(path) < i < path.len() ==> path[i] != '/',
    decreases path.len(),
{
    if path.len() > 0 && path.last() != '/' {
        let front = path.drop_last();
        lemma_last_separator(front);
        assert forall|i: int| last_separator(path) < i < path.len() implies path[i] != '/' by {
            if i < front.len() {
                assert(front[i] == path[i]);
            }
        }
    }
}

/// The last component of a path holds no separator.
pub proof fn lemma_final_component_has_no_separator(path: Seq<char>)
    ensures
        forall|i: int| 0 <= i < final_component(path).len() ==> final_component(path)[i] != '/',
{
    let t = trimmed(path);
    lemma_last_separator(t);
    assert forall|i: int| 0 <= i < final_component(path).len() implies final_component(
        path,
    )[i] != '/' by {
        assert(final_component(path)[i] == t[last_separator(t) + 1 + i]);
    }
}

/// An absolute path stays absolute when it is trimmed.
proof fn lemma_trimmed_keeps_start(path: Seq<char>)
    requires
        path.len() > 0,
    ensures
        1 <= trimmed_len(path) <= path.len(),
    decreases path.len(),
{
    if path.len() > 1 && (path.last() == '/' || (path.last() == '.' && path[path.len() - 2]
        == '/')) {
        lemma_trimmed_keeps_start(path.drop_last());
    }
}

/// The last separator stands at or after any separator.
proof fn lemma_last_separator_is_last(path: Seq<char>, i: int)
    requires
        0 <= i < path.len(),
        path[i] == '/',
    ensures
        last_separator(path) >= i,
    decreases path.len(),
{
    if path.last() != '/' {
        lemma_last_separator_is_last(path.drop_last(), i);
    }
}

/// What stands before the last component of an absolute path is absolute.
pub proof fn lemma_parent_prefix_of_absolute(path: Seq<char>)
    requires
        is_absolute(path),
    ensures
        is_absolute(parent_prefix(path)),
{
    lemma_trimmed_keeps_start(path);
    let t = trimmed(path);
    assert(t[0] == path[0]);
    lemma_last_separator_is_last(t, 0);
    lemma_last_separator(t);
    assert(parent_prefix(path)[0] == t[0]);
}

/// Computes [`trimmed_len`].
pub fn trimmed_length(chars: &Vec<char>) -> (n: usize)
    ensures
        n == trimmed_len(chars@),
        n <= chars.len(),
{
    let mut n = chars.len();
    assert(chars@.take(n as int) == chars@);
    while n > 1 && (chars[n - 1] == '/' || (chars[n - 1] == '.' && chars[n - 2] == '/'))
        invariant
            n <= chars.len(),
            trimmed_len(chars@) == trimmed_len(chars@.take(n as int)),
        decreases n,
    {
        assert(chars@.take(n as int).drop_last() == chars@.take(n - 1));
        n -= 1;
    }
    n
}

/// Finds the last separator among the first `end` characters.
pub fn last_separator_before(chars: &Vec<char>, end: usize) -> (at: Option<usize>)
    requires
        end <= chars.len(),
    ensures
        match at {
            Some(i) => i < end && chars[i as int] == '/' && last_separator(
                chars@.take(end as int),
            ) == i,
            None => last_separator(chars@.take(end as int)) == -1,
        },
{
    let mut i = end;
    while i > 0
        invariant
            i <= end <= chars.len(),
            last_separator(chars@.take(end as int)) == last_separator(chars@.take(i as int)),
        decreases i,
    {
        if chars[i - 1] == '/' {
            return Some(i - 1);
        }
        assert(chars@.take(i as int).drop_last() == chars@.take(i - 1));
        i -= 1;
    }
    None
}

/// Where the last component of a path stands: `chars[start..end]`.
pub struct NameSpan {
    pub start: usize,
    pub end: usize,
}

/// Finds the name that a path leads to, if it names one.
pub fn name_span(chars: &Vec<char>) -> (span: Option<NameSpan>)
    ensures
        match span {
            Some(span) => {
                &&& span.start <= span.end <= chars.len()
                &&& file_name(chars@) == Some(chars@.subrange(span.start as int, span.end as int))
                &&& parent_prefix(chars@) == chars@.take(span.start as int)
            },
            None => file_name(chars@) is None,
        },
{
    let end = trimmed_length(chars);
    let start = match last_separator_before(chars, end) {
        Some(at) => at + 1,
        None => 0,
    };
    let ghost t = trimmed(chars@);
    assert(t.skip(start as int) == chars@.subrange(start as int, end as int));
    assert(t.take(start as int) == chars@.take(start as int));
    let len = end - start;
    if len == 0 || (len == 1 && chars[start] == '.') || (len == 2 && chars[start] == '.'
        && chars[start + 1] == '.') {
        assert(file_name(chars@) is None) by {
            let name = final_component(chars@);
            if len == 1 {
                assert(name == seq!['.']);
            } else if len == 2 {
                assert(name == seq!['.', '.']);
            }
        }
        None
    } else {
        assert(file_name(chars@) is Some) by {
            let name = final_component(chars@);
            if name == seq!['.'] {
                assert(name.len() == 1 && name[0] == '.');
            } else if name == seq!['.', '.'] {
                assert(name.len() == 2 && name[0] == '.' && name[1] == '.');
            }
        }
        Some(NameSpan { start, end })
    }
}

/// The directory that holds what `path` leads to, if there is one.
pub fn parent_of(path: &str) -> (parent: Option<String>)
    ensures
        match parent {
            Some(dir) => parent_dir(path@) == Some(dir@),
            None => parent_dir(path@) is None,
        },
{
    let chars = chars_of(path);
    let end = trimmed_length(&chars);
    match last_separator_before(&chars, end) {
        None => None,
        Some(at) => {
            if at + 1 == end {
                None
            } else if at == 0 {
                let dir = string_of(&chars, 0, 1);
                assert(dir@ =~= seq!['/']);
                Some(dir)
            } else {
                let dir = string_of(&chars, 0, at);
                assert(chars@.subrange(0, at as int) == trimmed(chars@).take(at as int));
                Some(dir)
            }
        },
    }
}

/// The length of the first component of `path`: the number of characters
/// before its first separator.
pub open spec fn head_len(path: Seq<char>) -> nat
    decreases path.len(),
{
    if path.len() == 0 || path[0] == '/' {
        0
    } else {
        1 + head_len(path.skip(1))
    }
}

/// How deep below its start a walk stands after one more component, when it
/// stood `depth` directories below: `..` climbs, an empty component and `.`
/// stay, any other name descends. `None` where the walk would climb above
/// its start.
pub open spec fn step(depth: nat, component: Seq<char>) -> Option<nat> {
    if component.len() == 0 || component == seq!['.'] {
        Some(depth)
    } else if component == seq!['.', '.'] {
        if depth == 0 {
            None
        } else {
            Some((depth - 1) as nat)
        }
    } else {
        Some(depth + 1)
    }
}

/// Whether a walk along the components of `path`, begun `depth` directories
/// below some directory, never climbs above that directory.
pub open spec fn stays_inside(path: Seq<char>, depth: nat) -> bool
    decreases path.len(),
{
    let n = head_len(path);
    match step(depth, path.take(n as int)) {
        None => false,
        Some(next) => n >= path.len() || stays_inside(path.skip(n as int + 1), next),
    }
}

/// Whether `path` can be placed under a directory without leading out of
/// it: it is relative, holds no NUL, and no prefix of it climbs above where
/// it starts.
pub open spec fn confined(path: Seq<char>) -> bool {
    &&& !is_absolute(path)
    &&& forall|i: int| 0 <= i < path.len() ==> path[i] != '\0'
    &&& stays_inside(path, 0)
}

/// Whether `path` is confined on every platform: it is confined, and it
/// holds neither a backslash nor a colon, which some platforms read as a
/// separator and as the mark of a drive.
pub open spec fn portable(path: Seq<char>) -> bool {
    &&& confined(path)
    &&& forall|i: int| 0 <= i < path.len() ==> path[i] != '\\' && path[i] != ':'
}

/// The first component ends at the first separator.
proof fn lemma_head_len(path: Seq<char>, n: nat)
    requires
        n <= path.len(),
        forall|i: int| 0 <= i < n ==> path[i] != '/',
        n == path.len() || path[n as int] == '/',
    ensures
        head_len(path) == n,
    decreases n,
{
    if n > 0 {
        let rest = path.skip(1);
        assert forall|i: int| 0 <= i < n - 1 implies rest[i] != '/' by {
            assert(rest[i] == path[i + 1]);
        }
        lemma_head_len(rest, (n - 1) as nat);
    }
}

/// Tests whether `chars` is [`confined`].
pub fn is_confined(chars: &Vec<char>) -> (b: bool)
    ensures
        b == confined(chars@),
{
    let n = chars.len();
    if n > 0 && chars[0] == '/' {
        return false;
    }
    let mut k: usize = 0;
    while k < n
        invariant
            k <= n == chars.len(),
            forall|i: int| 0 <= i < k ==> chars[i] != '\0',
        decreases n - k,
    {
        if chars[k] == '\0' {
            return false;
        }
        k += 1;
    }
    let mut depth: usize = 0;
    let mut start: usize = 0;
    assert(chars@.skip(0) == chars@);
    loop
        invariant
            n == chars.len(),
            start <= n,
            depth <= start,
            !is_absolute(chars@),
            forall|i: int| 0 <= i < n ==> chars[i] != '\0',
            stays_inside(chars@, 0) == stays_inside(chars@.skip(start as int), depth as nat),
        decreases n - start,
    {
        let ghost rest = chars@.skip(start as int);
        let mut end = start;
        while end < n && chars[end] != '/'
            invariant
                n == chars.len(),
                start <= end <= n,
                forall|i: int| start <= i < end ==> chars[i] != '/',
            decreases n - end,
        {
            end += 1;
        }
        let len = end - start;
        proof {
            lemma_head_len(rest, len as nat);
        }
        let ghost component = rest.take(len as int);
        let is_parent = len == 2 && chars[start] == '.' && chars[start + 1] == '.';
        let is_current = len == 1 && chars[start] == '.';
        let is_normal = !is_parent && !is_current && len > 0;
        proof {
            if is_parent {
                assert(component =~= seq!['.', '.']);
            } else if is_current {
                assert(component =~= seq!['.']);
            } else if len > 0 {
                if component == seq!['.'] {
                    assert(component.len() == 1 && component[0] == '.');
                }
                if component == seq!['.', '.'] {
                    assert(component.len() == 2 && component[0] == '.' && component[1] == '.');
                }
            }
        }
        if is_parent {
            if depth == 0 {
                return false;
            }
            depth -= 1;
        } else if is_normal {
            depth += 1;
        }
        if end == n {
            return true;
        }
        assert(rest.skip(len + 1) == chars@.skip(end + 1));
        start = end + 1;
    }
}

/// Where a walk stands after one more component, when it stood in the
/// directory that `stack` names from the root down: `..` leaves the last
/// directory, and stays at the root where there is none to leave; an empty
/// component and `.` stay; any other name enters a directory.
pub open spec fn entered(stack: Seq<Seq<char>>, component: Seq<char>) -> Seq<Seq<char>> {
    if component.len() == 0 || component == seq!['.'] {
        stack
    } else if component == seq!['.', '.'] {
        if stack.len() == 0 {
            stack
        } else {
            stack.drop_last()
        }
    } else {
        stack.push(component)
    }
}

/// Where a walk along the components of `path` ends, when it starts in the
/// directory that `start` names from the root down.
pub open spec fn landing(start: Seq<Seq<char>>, path: Seq<char>) -> Seq<Seq<char>>
    decreases path.len(),
{
    let n = head_len(path);
    let next = entered(start, path.take(n as int));
    if n >= path.len() {
        next
    } else {
        landing(next, path.skip(n as int + 1))
    }
}

/// Whether the directory `inner` is `outer` or lies below it.
pub open spec fn is_within(inner: Seq<Seq<char>>, outer: Seq<Seq<char>>) -> bool {
    outer.len() <= inner.len() && inner.take(outer.len() as int) == outer
}

/// The first component reaches up to the first separator, or to the end.
proof fn lemma_head_ends(path: Seq<char>)
    ensures
        head_len(path) <= path.len(),
        forall|i: int| 0 <= i < head_len(path) ==> path[i] != '/',
        head_len(path) == path.len() || path[head_len(path) as int] == '/',
    decreases path.len(),
{
    if path.len() > 0 && path[0] != '/' {
        let rest = path.skip(1);
        lemma_head_ends(rest);
        assert forall|i: int| 0 <= i < head_len(path) implies path[i] != '/' by {
            if i > 0 {
                assert(rest[i - 1] == path[i]);
            }
        }
        if head_len(path) < path.len() {
            assert(rest[head_len(rest) as int] == path[head_len(path) as int]);
        }
    }
}

/// A walk that stays inside never leaves the directory from which its depth
/// is counted: of the directories it started in, all but the last `depth`
/// are still where it ends.
proof fn lemma_walk_keeps_base(start: Seq<Seq<char>>, path: Seq<char>, depth: nat)
    requires
        depth <= start.len(),
        stays_inside(path, depth),
    ensures
        is_within(landing(start, path), start.take(start.len() - depth)),
    decreases path.len(),
{
    let base = start.len() - depth;
    let n = head_len(path);
    let component = path.take(n as int);
    let next = entered(start, component);
    let next_depth = step(depth, component)->0;
    assert(next_depth <= next.len());
    assert(next.take(next.len() - next_depth) == start.take(base));
    if n < path.len() {
        lemma_head_ends(path);
        lemma_walk_keeps_base(next, path.skip(n as int + 1), next_depth);
    } else {
        assert(next.take(base).take(base) == next.take(base));
    }
}

/// A walk along `front`, a separator and `back` is a walk along `front`
/// followed by a walk along `back`.
proof fn lemma_landing_splits(start: Seq<Seq<char>>, front: Seq<char>, back: Seq<char>)
    ensures
        landing(start, front + seq!['/'] + back) == landing(landing(start, front), back),
    decreases front.len(),
{
    let path = front + seq!['/'] + back;
    let k = head_len(front);
    lemma_head_ends(front);
    assert forall|i: int| 0 <= i < k implies path[i] != '/' by {
        assert(path[i] == front[i]);
    }
    assert(path[k as int] == '/');
    lemma_head_len(path, k);
    assert(path.take(k as int) == front.take(k as int));
    let next = entered(start, front.take(k as int));
    if k == front.len() {
        assert(path.skip(k as int + 1) == back);
    } else {
        let rest = front.skip(k as int + 1);
        assert(path.skip(k as int + 1) == rest + seq!['/'] + back);
        lemma_landing_splits(next, rest, back);
    }
}

/// A walk to `path` placed under `base` is a walk to `base` followed by a
/// walk along `path`, where `path` is relative.
pub proof fn lemma_landing_of_joined(start: Seq<Seq<char>>, base: Seq<char>, path: Seq<char>)
    requires
        !is_absolute(path),
    ensures
        landing(start, joined(base, path)) == landing(landing(start, base), path),
{
    if base.len() == 0 {
        assert(base + path == path);
    } else if base.last() == '/' {
        let front = base.drop_last();
        assert(base == front + seq!['/'] + Seq::<char>::empty());
        assert(base + path == front + seq!['/'] + path);
        lemma_landing_splits(start, front, Seq::empty());
        lemma_landing_splits(start, front, path);
    } else {
        lemma_landing_splits(start, base, path);
    }
}

/// A confined name placed under a directory leads to that directory or
/// below it: wherever a walk starts, the walk to the joined path ends within
/// the directory that the walk to `dest` ends in.
pub proof fn lemma_confined_stays_under(start: Seq<Seq<char>>, dest: Seq<char>, name: Seq<char>)
    requires
        confined(name),
    ensures
        is_within(landing(start, joined(dest, name)), landing(start, dest)),
{
    let dir = landing(start, dest);
    lemma_landing_of_joined(start, dest, name);
    lemma_walk_keeps_base(dir, name, 0);
    assert(dir.take(dir.len() as int) == dir);
}

} // verus!
