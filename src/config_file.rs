use vstd::prelude::*;
use crate::form::{pairs_view, FieldView};

verus! {

/// The lines of a text, split at each newline (a text ending in a newline ends in an empty line).
pub open spec fn lines(s: Seq<char>) -> Seq<Seq<char>>
    decreases s.len(),
{
    if s.len() == 0 {
        seq![Seq::empty()]
    } else {
        let l = lines(s.drop_last());
        if s.last() == '\n' {
            l.push(Seq::empty())
        } else {
            l.update(l.len() - 1, l.last().push(s.last()))
        }
    }
}

/// Spaces, tabs and carriage returns.
pub open spec fn is_blank(c: char) -> bool {
    c == ' ' || c == '\t' || c == '\r'
}

pub open spec fn strip_left(s: Seq<char>) -> Seq<char>
    decreases s.len(),
{
    if s.len() > 0 && is_blank(s[0]) {
        strip_left(s.drop_first())
    } else {
        s
    }
}

pub open spec fn strip_right(s: Seq<char>) -> Seq<char>
    decreases s.len(),
{
    if s.len() > 0 && is_blank(s.last()) {
        strip_right(s.drop_last())
    } else {
        s
    }
}

/// `s` without its leading and trailing blanks.
pub open spec fn trim(s: Seq<char>) -> Seq<char> {
    strip_right(strip_left(s))
}

/// `s` without one pair of enclosing double quotes, if it has them.
pub open spec fn unquote(s: Seq<char>) -> Seq<char> {
    if s.len() >= 2 && s[0] == '"' && s.last() == '"' {
        s.subrange(1, s.len() - 1)
    } else {
        s
    }
}

/// Where the first `:` of a line stands.
pub open spec fn first_colon(s: Seq<char>) -> Option<int>
    decreases s.len(),
{
    if s.len() == 0 {
        None
    } else {
        match first_colon(s.drop_last()) {
            Some(i) => Some(i),
            None => if s.last() == ':' {
                Some(s.len() - 1)
            } else {
                None
            },
        }
    }
}

/// What one line means, given the section that is open: the section open after it, and
/// the entry that it holds, if any. A line is `key: value`; a line without `:`, or whose key
/// is empty or starts with `#`, holds nothing. An unindented `key:` with no value opens the
/// section `key`; an unindented `key: value` closes any section and holds `(key, value)`; an
/// indented `key: value` holds `(section.key, value)`, or `(key, value)` with no section open.
pub open spec fn line_meaning(section: Seq<char>, line: Seq<char>) -> (Seq<char>, Option<FieldView>) {
    match first_colon(line) {
        None => (section, None),
        Some(c) => {
            let key = trim(line.take(c));
            let raw = trim(line.skip(c + 1));
            let value = unquote(raw);
            if key.len() == 0 || key[0] == '#' {
                (section, None)
            } else if line[0] != ' ' {
                if raw.len() == 0 {
                    (key, None)
                } else {
                    (Seq::empty(), Some((key, value)))
                }
            } else if section.len() > 0 {
                (section, Some((section + seq!['.'] + key, value)))
            } else {
                (section, Some((key, value)))
            }
        }
    }
}

/// The section open after these lines.
pub open spec fn section_after(ls: Seq<Seq<char>>) -> Seq<char>
    decreases ls.len(),
{
    if ls.len() == 0 {
        Seq::empty()
    } else {
        line_meaning(section_after(ls.drop_last()), ls.last()).0
    }
}

/// The dotted entries that these lines hold, in order.
pub open spec fn entries_of(ls: Seq<Seq<char>>) -> Seq<FieldView>
    decreases ls.len(),
{
    if ls.len() == 0 {
        Seq::empty()
    } else {
        let before = entries_of(ls.drop_last());
        match line_meaning(section_after(ls.drop_last()), ls.last()).1 {
            Some(e) => before.push(e),
            None => before,
        }
    }
}

/// The dotted entries of a configuration text.
pub open spec fn config_entries(text: Seq<char>) -> Seq<FieldView> {
    entries_of(lines(text))
}

fn is_blank_char(c: char) -> (r: bool)
    ensures
        r == is_blank(c),
{
    c == ' ' || c == '\t' || c == '\r'
}

/// The bounds, within `[start, end)`, of that range of `text` without its outer blanks.
fn trim_range(text: &str, start: usize, end: usize) -> (r: (usize, usize))
    requires
        start <= end <= text@.len(),
    ensures
        start <= r.0 <= r.1 <= end,
        text@.subrange(r.0 as int, r.1 as int) == trim(text@.subrange(start as int, end as int)),
{
    let mut a = start;
    while a < end && is_blank_char(text.get_char(a))
        invariant
            start <= a <= end,
            end <= text@.len(),
            strip_left(text@.subrange(start as int, end as int)) == strip_left(
                text@.subrange(a as int, end as int),
            ),
        decreases end - a,
    {
        proof {
            assert(text@.subrange(a as int, end as int).drop_first() =~= text@.subrange(
                a as int + 1,
                end as int,
            ));
        }
        a = a + 1;
    }
    let ghost left = text@.subrange(a as int, end as int);
    assert(strip_left(left) == left);
    let mut b = end;
    while b > a && is_blank_char(text.get_char(b - 1))
        invariant
            a <= b <= end,
            end <= text@.len(),
            strip_right(left) == strip_right(text@.subrange(a as int, b as int)),
            left == text@.subrange(a as int, end as int),
        decreases b - a,
    {
        proof {
            assert(text@.subrange(a as int, b as int).drop_last() =~= text@.subrange(
                a as int,
                b as int - 1,
            ));
        }
        b = b - 1;
    }
    let ghost right = text@.subrange(a as int, b as int);
    assert(strip_right(right) == right);
    (a, b)
}

/// A colon found in a prefix is the first colon of the whole.
proof fn lemma_first_colon_prefix(s: Seq<char>, k: int)
    requires
        0 <= k <= s.len(),
        first_colon(s.take(k)) is Some,
    ensures
        first_colon(s) == first_colon(s.take(k)),
    decreases s.len() - k,
{
    if k < s.len() {
        let t = s.take(k + 1);
        assert(t.drop_last() =~= s.take(k));
        assert(first_colon(t) == first_colon(s.take(k)));
        lemma_first_colon_prefix(s, k + 1);
    } else {
        assert(s.take(k) =~= s);
    }
}

/// Where the first `:` of the range `[start, end)` of `text` stands.
fn find_colon(text: &str, start: usize, end: usize) -> (r: Option<usize>)
    requires
        start <= end <= text@.len(),
    ensures
        r matches Some(c) ==> start <= c < end && first_colon(
            text@.subrange(start as int, end as int),
        ) == Some(c - start),
        r is None ==> first_colon(text@.subrange(start as int, end as int)) is None,
{
    let ghost line = text@.subrange(start as int, end as int);
    let mut i = start;
    while i < end
        invariant
            start <= i <= end,
            end <= text@.len(),
            line == text@.subrange(start as int, end as int),
            first_colon(line.take(i - start)) is None,
        decreases end - i,
    {
        proof {
            assert(line.take(i - start + 1).drop_last() =~= line.take(i - start));
        }
        if text.get_char(i) == ':' {
            proof {
                lemma_first_colon_prefix(line, i - start + 1);
            }
            return Some(i);
        }
        i = i + 1;
    }
    proof {
        assert(line.take(end - start) =~= line);
    }
    None
}

pub open spec fn entry_view(e: Option<(String, String)>) -> Option<FieldView> {
    match e {
        Some(p) => Some((p.0@, p.1@)),
        None => None,
    }
}

/// What the line `[start, end)` of `text` means, with `section` open before it.
fn parse_line(text: &str, start: usize, end: usize, section: &String) -> (r: (
    String,
    Option<(String, String)>,
))
    requires
        start <= end <= text@.len(),
    ensures
        ({
            let m = line_meaning(section@, text@.subrange(start as int, end as int));
            r.0@ == m.0 && entry_view(r.1) == m.1
        }),
{
    let ghost line = text@.subrange(start as int, end as int);
    match find_colon(text, start, end) {
        None => (section.clone(), None),
        Some(c) => {
            assert(line.take(c - start) =~= text@.subrange(start as int, c as int));
            assert(line.skip(c - start + 1) =~= text@.subrange(c as int + 1, end as int));
            let (ka, kb) = trim_range(text, start, c);
            let (ra, rb) = trim_range(text, c + 1, end);
            let (va, vb) = if rb - ra >= 2 && text.get_char(ra) == '"' && text.get_char(rb - 1)
                == '"' {
                (ra + 1, rb - 1)
            } else {
                (ra, rb)
            };
            assert(text@.subrange(va as int, vb as int) =~= unquote(
                text@.subrange(ra as int, rb as int),
            ));
            if ka == kb || text.get_char(ka) == '#' {
                (section.clone(), None)
            } else {
                let key = String::from_str(text.substring_char(ka, kb));
                let value = String::from_str(text.substring_char(va, vb));
                if text.get_char(start) != ' ' {
                    if ra == rb {
                        (key, None)
                    } else {
                        (String::new(), Some((key, value)))
                    }
                } else if section.unicode_len() > 0 {
                    proof {
                        reveal_strlit(".");
                    }
                    let mut dotted = section.clone();
                    dotted.append(".");
                    dotted.append(key.as_str());
                    (section.clone(), Some((dotted, value)))
                } else {
                    (section.clone(), Some((key, value)))
                }
            }
        },
    }
}

/// The dotted (path, value) entries of a configuration text, in order.
pub fn parse_config(text: &str) -> (r: Vec<(String, String)>)
    ensures
        pairs_view(r@) == config_entries(text@),
{
    let n = text.unicode_len();
    let mut out: Vec<(String, String)> = Vec::new();
    let mut section = String::new();
    let ghost done: Seq<Seq<char>> = Seq::empty();
    let mut line_start: usize = 0;
    let mut j: usize = 0;
    proof {
        assert(text@.take(0) =~= Seq::<char>::empty());
        assert(lines(text@.take(0)) =~= done + seq![text@.subrange(0, 0)]);
    }
    while j < n
        invariant
            n == text@.len(),
            line_start <= j <= n,
            lines(text@.take(j as int)) == done + seq![text@.subrange(line_start as int, j as int)],
            pairs_view(out@) == entries_of(done),
            section@ == section_after(done),
        decreases n - j,
    {
        let ch = text.get_char(j);
        proof {
            let t = text@.take(j as int + 1);
            assert(t.drop_last() =~= text@.take(j as int));
            assert(t.last() == ch);
            assert(lines(t) == if ch == '\n' {
                lines(text@.take(j as int)).push(Seq::empty())
            } else {
                let l = lines(text@.take(j as int));
                l.update(l.len() - 1, l.last().push(ch))
            });
        }
        if ch == '\n' {
            let (next, entry) = parse_line(text, line_start, j, &section);
            proof {
                let line = text@.subrange(line_start as int, j as int);
                let nd = done.push(line);
                assert(nd.drop_last() =~= done);
                assert(text@.subrange(j as int + 1, j as int + 1) =~= Seq::<char>::empty());
                assert(lines(text@.take(j as int)) =~= nd);
                assert(lines(text@.take(j as int + 1)) =~= nd + seq![text@.subrange(j as int + 1, j as int + 1)]);
                done = nd;
            }
            match entry {
                Some(e) => {
                    let ghost before = out@;
                    out.push(e);
                    assert(pairs_view(out@) =~= pairs_view(before).push(entry_view(Some(e))->Some_0));
                },
                None => {},
            }
            section = next;
            line_start = j + 1;
        } else {
            proof {
                let l = lines(text@.take(j as int));
                assert(text@.subrange(line_start as int, j as int + 1) =~= text@.subrange(line_start as int, j as int).push(ch));
                assert(l.update(l.len() - 1, l.last().push(ch)) =~= done + seq![text@.subrange(line_start as int, j as int + 1)]);
            }
        }
        j = j + 1;
    }
    let (_, entry) = parse_line(text, line_start, n, &section);
    proof {
        assert(text@.take(n as int) =~= text@);
        let nd = done.push(text@.subrange(line_start as int, n as int));
        assert(nd.drop_last() =~= done);
        assert(lines(text@) =~= nd);
    }
    match entry {
        Some(e) => {
            let ghost before = out@;
            out.push(e);
            assert(pairs_view(out@) =~= pairs_view(before).push(entry_view(Some(e))->Some_0));
        },
        None => {},
    }
    out
}

} // verus!
