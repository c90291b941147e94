//! Path text rules: final component, extension and joining, for `/`-separated paths.
use vstd::prelude::*;
use crate::text::{chars_of, string_from_range, push_all};

verus! {

/// Position of the last `c` in `s`, if any.
pub open spec fn last_index_of(s: Seq<char>, c: char) -> Option<int>
    decreases s.len(),
{
    if s.len() == 0 {
        None
    } else if s.last() == c {
        Some(s.len() - 1)
    } else {
        last_index_of(s.drop_last(), c)
    }
}

pub proof fn lemma_last_index_of_bounds(s: Seq<char>, c: char)
    ensures
        match last_index_of(s, c) {
            Some(i) => 0 <= i < s.len() && s[i] == c && forall|k: int| i < k < s.len() ==> s[k] != c,
            None => forall|k: int| 0 <= k < s.len() ==> s[k] != c,
        },
    decreases s.len(),
{
    if s.len() > 0 && s.last() != c {
        lemma_last_index_of_bounds(s.drop_last(), c);
        assert(forall|k: int| 0 <= k < s.len() - 1 ==> s.drop_last()[k] == s[k]);
    }
}

/// Start of the trailing segment of `path` (just after its last `/`).
pub open spec fn segment_start(path: Seq<char>) -> int {
    match last_index_of(path, '/') {
        Some(i) => i + 1,
        None => 0,
    }
}

/// The final component of a `/`-separated path, as `std::path::Path::file_name`
/// reads it: trailing separators and `.` components are skipped, and a path
/// that ends in `..` or has no normal component has none.
pub open spec fn file_name(path: Seq<char>) -> Option<Seq<char>>
    decreases path.len(),
{
    if path.len() == 0 {
        None
    } else if path.last() == '/' {
        file_name(path.drop_last())
    } else {
        let start = segment_start(path);
        let seg = path.subrange(start, path.len() as int);
        if seg == seq!['.'] {
            if start == 0 {
                None
            } else {
                proof {
                    lemma_last_index_of_bounds(path, '/');
                }
                file_name(path.subrange(0, start))
            }
        } else if seg == seq!['.', '.'] {
            None
        } else {
            Some(seg)
        }
    }
}

/// The extension of a file name, as `std::path::Path::extension` reads it:
/// the text after the final `.`, unless there is no `.` or the only `.` starts
/// the name.
pub open spec fn extension_of_name(name: Seq<char>) -> Option<Seq<char>> {
    match last_index_of(name, '.') {
        None => None,
        Some(i) => if i == 0 {
            None
        } else {
            Some(name.subrange(i + 1, name.len() as int))
        },
    }
}

/// The extension of a path's final component.
pub open spec fn extension(path: Seq<char>) -> Option<Seq<char>> {
    match file_name(path) {
        Some(name) => extension_of_name(name),
        None => None,
    }
}

/// Scans `chars[..end]` backwards for the last `c`.
fn find_last(chars: &Vec<char>, end: usize, c: char) -> (start: usize)
    requires
        end <= chars@.len(),
    ensures
        start <= end,
        start == match last_index_of(chars@.take(end as int), c) {
            Some(i) => i + 1,
            None => 0,
        },
{
    let mut j = end;
    while j > 0 && chars[j - 1] != c
        invariant
            j <= end <= chars@.len(),
            last_index_of(chars@.take(end as int), c) == last_index_of(chars@.take(j as int), c),
        decreases j,
    {
        proof {
            assert(chars@.take(j as int).drop_last() =~= chars@.take(j as int - 1));
        }
        j = j - 1;
    }
    proof {
        if j > 0 {
            assert(chars@.take(j as int).last() == c);
        }
    }
    j
}

proof fn lemma_file_name_prefix(chars: Seq<char>, end: int)
    requires
        0 < end <= chars.len(),
        chars[end - 1] == '/',
    ensures
        file_name(chars.take(end)) == file_name(chars.take(end - 1)),
{
    assert(chars.take(end).drop_last() =~= chars.take(end - 1));
}

/// The final component of `path` (see [`file_name`]).
pub fn file_name_of(path: &str) -> (name: Option<String>)
    ensures
        match name {
            Some(n) => file_name(path@) == Some(n@),
            None => file_name(path@) is None,
        },
{
    let chars = chars_of(path);
    let mut end = chars.len();
    proof {
        assert(chars@.take(end as int) =~= chars@);
    }
    loop
        invariant
            end <= chars@.len(),
            chars@ == path@,
            file_name(chars@.take(end as int)) == file_name(path@),
        decreases end,
    {
        if end == 0 {
            return None;
        }
        if chars[end - 1] == '/' {
            proof {
                lemma_file_name_prefix(chars@, end as int);
            }
            end = end - 1;
        } else {
            let start = find_last(&chars, end, '/');
            let ghost p = chars@.take(end as int);
            proof {
                lemma_last_index_of_bounds(p, '/');
                assert(p.subrange(start as int, end as int) =~= chars@.subrange(start as int, end as int));
            }
            let is_dot = end - start == 1 && chars[start] == '.';
            let is_dotdot = end - start == 2 && chars[start] == '.' && chars[start + 1] == '.';
            proof {
                let seg = p.subrange(start as int, end as int);
                if end - start >= 1 {
                    assert(seg[0] == chars@[start as int]);
                }
                if end - start >= 2 {
                    assert(seg[1] == chars@[start + 1]);
                }
                if end - start == 1 {
                    assert(is_dot == (seg =~= seq!['.']));
                } else {
                    assert(seg.len() != 1);
                    assert(!is_dot && seg != seq!['.']);
                }
                if end - start == 2 {
                    assert(is_dotdot == (seg =~= seq!['.', '.']));
                } else {
                    assert(seg.len() != 2);
                    assert(!is_dotdot && seg != seq!['.', '.']);
                }
            }
            if is_dot {
                if start == 0 {
                    return None;
                }
                proof {
                    assert(p.subrange(0, start as int) =~= chars@.take(start as int));
                }
                end = start;
            } else if is_dotdot {
                return None;
            } else {
                return Some(string_from_range(&chars, start, end));
            }
        }
    }
}

proof fn lemma_find_last_full(chars: Seq<char>, c: char)
    ensures
        chars.take(chars.len() as int) == chars,
{
    assert(chars.take(chars.len() as int) =~= chars);
}

/// The extension of `path`'s final component (see [`extension`]).
pub fn extension_of(path: &str) -> (ext: Option<String>)
    ensures
        match ext {
            Some(e) => extension(path@) == Some(e@),
            None => extension(path@) is None,
        },
{
    match file_name_of(path) {
        None => None,
        Some(name) => {
            let chars = chars_of(name.as_str());
            let start = find_last(&chars, chars.len(), '.');
            proof {
                lemma_find_last_full(chars@, '.');
                lemma_last_index_of_bounds(chars@, '.');
            }
            if start <= 1 {
                None
            } else {
                Some(string_from_range(&chars, start, chars.len()))
            }
        },
    }
}

/// `base` with `name` appended as a further component, as `PathBuf::push`
/// does on Unix: an absolute `name` replaces `base`; otherwise nothing is
/// inserted after an empty base or a base already ending in `/`, and one `/`
/// is inserted in every other case.
pub open spec fn join(base: Seq<char>, name: Seq<char>) -> Seq<char> {
    if name.len() > 0 && name[0] == '/' {
        name
    } else if base.len() == 0 || base.last() == '/' {
        base + name
    } else {
        base + seq!['/'] + name
    }
}

/// Appends the component `name` to `base` (see [`join`]).
pub fn join_path(base: &str, name: &str) -> (joined: String)
    ensures
        joined@ == join(base@, name@),
{
    let b = chars_of(base);
    let n = chars_of(name);
    let mut out = String::new();
    if n.len() > 0 && n[0] == '/' {
        push_all(&mut out, &n);
        proof {
            assert(Seq::<char>::empty() + n@ =~= n@);
        }
        return out;
    }
    push_all(&mut out, &b);
    if b.len() > 0 && b[b.len() - 1] != '/' {
        crate::text::push_char(&mut out, '/');
    }
    push_all(&mut out, &n);
    proof {
        assert(Seq::<char>::empty() + b@ =~= b@);
    }
    out
}

} // verus!
