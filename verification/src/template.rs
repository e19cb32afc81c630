//! Expression templates: text with zero or more `{{ key }}` placeholders,
//! parsed into a sequence of literal and variable parts.

use vstd::prelude::*;
use crate::key::{Key, key_wf, range_is_key};
use crate::text::{is_space, to_char_vec};
use vstd::string::StrSliceExecFns;
use vstd::string::StringExecFns;

verus! {

/// True when a `{{` opens at position `i` of `s`.
pub open spec fn open_at(s: Seq<char>, i: int) -> bool {
    0 <= i && i + 1 < s.len() && s[i] == '{' && s[i + 1] == '{'
}

/// True when a `}}` closes at position `i` of `s`.
pub open spec fn close_at(s: Seq<char>, i: int) -> bool {
    0 <= i && i + 1 < s.len() && s[i] == '}' && s[i + 1] == '}'
}

/// The first position at or after `from` where a `{{` opens, or `s.len()`.
pub open spec fn find_open(s: Seq<char>, from: int) -> int
    decreases s.len() - from,
    when 0 <= from <= s.len()
{
    if from + 1 >= s.len() {
        s.len() as int
    } else if s[from] == '{' && s[from + 1] == '{' {
        from
    } else {
        find_open(s, from + 1)
    }
}

/// The first position at or after `from` where a `}}` closes, or `s.len()`.
pub open spec fn find_close(s: Seq<char>, from: int) -> int
    decreases s.len() - from,
    when 0 <= from <= s.len()
{
    if from + 1 >= s.len() {
        s.len() as int
    } else if s[from] == '}' && s[from + 1] == '}' {
        from
    } else {
        find_close(s, from + 1)
    }
}

/// The first position in `from..to` holding a non-space, or `to`.
pub open spec fn skip_spaces(s: Seq<char>, from: int, to: int) -> int
    decreases to - from,
    when 0 <= from <= to <= s.len()
{
    if from >= to {
        to
    } else if is_space(s[from]) {
        skip_spaces(s, from + 1, to)
    } else {
        from
    }
}

/// The position after the last non-space in `from..to`, or `from`.
pub open spec fn rskip_spaces(s: Seq<char>, from: int, to: int) -> int
    decreases to - from,
    when 0 <= from <= to <= s.len()
{
    if to <= from {
        from
    } else if is_space(s[to - 1]) {
        rskip_spaces(s, from, to - 1)
    } else {
        to
    }
}

pub proof fn lemma_find_open_range(s: Seq<char>, from: int)
    requires
        0 <= from <= s.len(),
    ensures
        from <= find_open(s, from) <= s.len(),
        find_open(s, from) < s.len() ==> open_at(s, find_open(s, from)),
        forall|k: int| from <= k < find_open(s, from) ==> !open_at(s, k),
    decreases s.len() - from,
{
    if from + 1 >= s.len() {
    } else if s[from] == '{' && s[from + 1] == '{' {
    } else {
        lemma_find_open_range(s, from + 1);
    }
}

pub proof fn lemma_find_close_range(s: Seq<char>, from: int)
    requires
        0 <= from <= s.len(),
    ensures
        from <= find_close(s, from) <= s.len(),
        find_close(s, from) < s.len() ==> close_at(s, find_close(s, from)),
        forall|k: int| from <= k < find_close(s, from) ==> !close_at(s, k),
    decreases s.len() - from,
{
    if from + 1 >= s.len() {
    } else if s[from] == '}' && s[from + 1] == '}' {
    } else {
        lemma_find_close_range(s, from + 1);
    }
}

/// One parsed part of a template, at the specification level: a stretch of
/// literal text, or a placeholder's key.
pub enum PartView {
    Lit(Seq<char>),
    Var(Seq<char>),
}

/// One parsed part of a template: a stretch of literal text, or the key of a
/// `{{ key }}` placeholder.
pub enum TemplatePart {
    Lit(String),
    Var(Key),
}

impl View for TemplatePart {
    type V = PartView;

    open spec fn view(&self) -> PartView {
        match self {
            TemplatePart::Lit(t) => PartView::Lit(t@),
            TemplatePart::Var(k) => PartView::Var(k@),
        }
    }
}

/// The parts of a sequence of parsed template parts.
pub open spec fn parts_view(ps: Seq<TemplatePart>) -> Seq<PartView> {
    ps.map_values(|p: TemplatePart| p@)
}

/// Parses `s` from position `from` into parts. A `{{` always opens a
/// placeholder; the text up to the next `}}`, with surrounding spaces
/// dropped, must be a well-formed key. `None` means the template is
/// malformed: an unclosed `{{`, or placeholder text that is no key.
pub open spec fn parse_template(s: Seq<char>, from: int) -> Option<Seq<PartView>>
    decreases s.len() - from,
    when 0 <= from <= s.len()
    via parse_template_dec
{
    let o = find_open(s, from);
    if o == s.len() {
        if from < s.len() {
            Some(seq![PartView::Lit(s.subrange(from, s.len() as int))])
        } else {
            Some(Seq::empty())
        }
    } else {
        let c = find_close(s, o + 2);
        if c == s.len() {
            None
        } else {
            let lo = skip_spaces(s, o + 2, c);
            let hi = rskip_spaces(s, lo, c);
            let key = s.subrange(lo, hi);
            if !key_wf(key) {
                None
            } else {
                match parse_template(s, c + 2) {
                    Option::None => None,
                    Option::Some(rest) => {
                        if from < o {
                            Some(
                                seq![PartView::Lit(s.subrange(from, o)), PartView::Var(key)]
                                    + rest,
                            )
                        } else {
                            Some(seq![PartView::Var(key)] + rest)
                        }
                    },
                }
            }
        }
    }
}

#[via_fn]
proof fn parse_template_dec(s: Seq<char>, from: int) {
    lemma_find_open_range(s, from);
    let o = find_open(s, from);
    if o < s.len() {
        lemma_find_close_range(s, o + 2);
    }
}

/// The first `{{` at or after `from`, as executable code.
fn find_open_at(chars: &Vec<char>, from: usize) -> (r: usize)
    requires
        from <= chars@.len(),
    ensures
        r == find_open(chars@, from as int),
        from <= r <= chars@.len(),
{
    let n = chars.len();
    let mut i: usize = from;
    while n - i > 1
        invariant
            from <= i <= n == chars@.len(),
            find_open(chars@, from as int) == find_open(chars@, i as int),
        decreases n - i,
    {
        if chars[i] == '{' && chars[i + 1] == '{' {
            return i;
        }
        i += 1;
    }
    proof {
        lemma_find_open_range(chars@, from as int);
    }
    n
}

/// The first `}}` at or after `from`, as executable code.
fn find_close_at(chars: &Vec<char>, from: usize) -> (r: usize)
    requires
        from <= chars@.len(),
    ensures
        r == find_close(chars@, from as int),
        from <= r <= chars@.len(),
{
    let n = chars.len();
    let mut i: usize = from;
    while n - i > 1
        invariant
            from <= i <= n == chars@.len(),
            find_close(chars@, from as int) == find_close(chars@, i as int),
        decreases n - i,
    {
        if chars[i] == '}' && chars[i + 1] == '}' {
            return i;
        }
        i += 1;
    }
    proof {
        lemma_find_close_range(chars@, from as int);
    }
    n
}

/// The first non-space in `from..to`, as executable code.
fn skip_spaces_at(chars: &Vec<char>, from: usize, to: usize) -> (r: usize)
    requires
        from <= to <= chars@.len(),
    ensures
        r == skip_spaces(chars@, from as int, to as int),
        from <= r <= to,
{
    let mut i: usize = from;
    while i < to
        invariant
            from <= i <= to <= chars@.len(),
            skip_spaces(chars@, from as int, to as int) == skip_spaces(chars@, i as int, to as int),
        decreases to - i,
    {
        let c = chars[i];
        if !(c == ' ' || c == '\t') {
            return i;
        }
        i += 1;
    }
    i
}

/// The bound after the last non-space in `from..to`, as executable code.
fn rskip_spaces_at(chars: &Vec<char>, from: usize, to: usize) -> (r: usize)
    requires
        from <= to <= chars@.len(),
    ensures
        r == rskip_spaces(chars@, from as int, to as int),
        from <= r <= to,
{
    let mut j: usize = to;
    while j > from
        invariant
            from <= j <= to <= chars@.len(),
            rskip_spaces(chars@, from as int, to as int) == rskip_spaces(
                chars@,
                from as int,
                j as int,
            ),
        decreases j,
    {
        let c = chars[j - 1];
        if !(c == ' ' || c == '\t') {
            return j;
        }
        j -= 1;
    }
    j
}

/// Parses the template text `s` into parts; `chars` is its character copy.
/// Fails exactly when the specification-level parse fails.
fn parse_template_from(s: &str, chars: &Vec<char>, from: usize) -> (r: Result<
    Vec<TemplatePart>,
    (),
>)
    requires
        chars@ == s@,
        from <= chars@.len(),
    ensures
        match r {
            Ok(ps) => parse_template(s@, from as int) == Some(parts_view(ps@)),
            Err(_) => parse_template(s@, from as int) is None,
        },
    decreases chars@.len() - from,
{
    let n = chars.len();
    let o = find_open_at(chars, from);
    if o == n {
        if from < n {
            let lit = s.substring_char(from, n);
            let part = TemplatePart::Lit(String::from_str(lit));
            let mut ps: Vec<TemplatePart> = Vec::new();
            ps.push(part);
            proof {
                assert(parts_view(ps@) =~= seq![
                    PartView::Lit(s@.subrange(from as int, s@.len() as int)),
                ]);
            }
            Ok(ps)
        } else {
            let ps: Vec<TemplatePart> = Vec::new();
            proof {
                assert(parts_view(ps@) =~= Seq::<PartView>::empty());
            }
            Ok(ps)
        }
    } else {
        proof {
            lemma_find_open_range(chars@, from as int);
        }
        let c = find_close_at(chars, o + 2);
        if c == n {
            Err(())
        } else {
            proof {
                lemma_find_close_range(chars@, o + 2);
            }
            let lo = skip_spaces_at(chars, o + 2, c);
            let hi = rskip_spaces_at(chars, lo, c);
            if !range_is_key(chars, lo, hi) {
                Err(())
            } else {
                let key = Key::from_valid(String::from_str(s.substring_char(lo, hi)));
                match parse_template_from(s, chars, c + 2) {
                    Err(_) => Err(()),
                    Ok(mut rest) => {
                        let mut ps: Vec<TemplatePart> = Vec::new();
                        if from < o {
                            ps.push(TemplatePart::Lit(String::from_str(s.substring_char(from, o))));
                        }
                        ps.push(TemplatePart::Var(key));
                        let ghost head = ps@;
                        let ghost restv = rest@;
                        ps.append(&mut rest);
                        proof {
                            let whole = parse_template(s@, from as int)->Some_0;
                            assert(ps@ == head + restv);
                            assert(whole == parts_view(head) + parts_view(restv));
                            assert forall|k: int| 0 <= k < ps@.len() implies parts_view(ps@)[k]
                                == whole[k] by {
                                if k < head.len() {
                                    assert(ps@[k] == head[k]);
                                    assert(parts_view(head)[k] == head[k]@);
                                } else {
                                    assert(ps@[k] == restv[k - head.len()]);
                                    assert(parts_view(restv)[k - head.len()] == restv[k
                                        - head.len()]@);
                                }
                            }
                            assert(parts_view(ps@) =~= whole);
                        }
                        Ok(ps)
                    },
                }
            }
        }
    }
}

/// Parses a template into its literal and placeholder parts. `Err` means
/// the template is malformed: a `{{` with no closing `}}`, or placeholder
/// text that is not a well-formed key.
pub fn parse(s: &str) -> (r: Result<Vec<TemplatePart>, ()>)
    ensures
        match r {
            Ok(ps) => parse_template(s@, 0) == Some(parts_view(ps@)),
            Err(_) => parse_template(s@, 0) is None,
        },
{
    let chars = to_char_vec(s);
    parse_template_from(s, &chars, 0)
}

} // verus!
