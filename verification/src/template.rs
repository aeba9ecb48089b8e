//! The template language the pipeline renders entries with.
//!
//! A template is plain text with escapes: `%i` renders the entry's
//! identifier, `%p` its parent identifiers separated by single spaces, `%m`
//! its metadata payload, and `%%` a literal percent sign. Any other escape,
//! or a dangling percent sign, is a compile error; rendering `%m` against an
//! entry without a payload is a render error. Both templates are compiled
//! once, before the first entry is read.

use vstd::prelude::*;
use crate::entry::HistoryEntry;
use crate::errors::CommandError;

verus! {

/// One compiled piece of a template.
#[derive(PartialEq, Eq, Structural, Clone, Copy, Debug)]
pub enum Part {
    /// A character copied verbatim.
    Lit(char),
    /// The entry's identifier, in fixed-width hexadecimal.
    Id,
    /// The entry's parent identifiers, space-separated.
    Parents,
    /// The entry's metadata payload.
    Payload,
}

/// A template expression compiled to its parts.
pub struct CompiledTemplate {
    pub parts: Vec<Part>,
}

/// What a template text compiles to, or nothing when it has a bad or
/// dangling escape.
pub open spec fn parse_spec(s: Seq<char>) -> Option<Seq<Part>>
    decreases s.len(),
{
    if s.len() == 0 {
        Some(Seq::<Part>::empty())
    } else if s[0] != '%' {
        match parse_spec(s.skip(1)) {
            Some(r) => Some(seq![Part::Lit(s[0])] + r),
            None => None,
        }
    } else if s.len() == 1 {
        None
    } else {
        let p = if s[1] == 'i' {
            Some(Part::Id)
        } else if s[1] == 'p' {
            Some(Part::Parents)
        } else if s[1] == 'm' {
            Some(Part::Payload)
        } else if s[1] == '%' {
            Some(Part::Lit('%'))
        } else {
            None
        };
        match p {
            Some(part) => match parse_spec(s.skip(2)) {
                Some(r) => Some(seq![part] + r),
                None => None,
            },
            None => None,
        }
    }
}

/// A parse suffix prefixed with already-compiled parts.
pub open spec fn with_prefix(p: Seq<Part>, rest: Option<Seq<Part>>) -> Option<Seq<Part>> {
    match rest {
        Some(r) => Some(p + r),
        None => None,
    }
}

/// Compiles a template expression, or reports where it is malformed.
pub fn compile_template(text: &str) -> (r: Result<CompiledTemplate, CommandError>)
    ensures
        match r {
            Ok(t) => parse_spec(text@) == Some(t.parts@),
            Err(e) => parse_spec(text@) is None && e.kind() == crate::errors::ErrKind::TemplateCompile,
        },
{
    let n = text.unicode_len();
    let mut parts: Vec<Part> = Vec::new();
    let mut i: usize = 0;
    proof {
        assert(text@.skip(0) =~= text@);
    }
    while i < n
        invariant
            n == text@.len(),
            i <= n,
            parse_spec(text@) == with_prefix(parts@, parse_spec(text@.skip(i as int))),
        decreases n - i,
    {
        let ghost rest = text@.skip(i as int);
        proof {
            assert(rest[0] == text@[i as int]);
        }
        let c = text.get_char(i);
        if c != '%' {
            parts.push(Part::Lit(c));
            proof {
                assert(rest.skip(1) =~= text@.skip(i + 1 as int));
                lemma_with_prefix_step(parts@.drop_last(), Part::Lit(c), parse_spec(text@.skip(i + 1 as int)));
                assert(parts@.drop_last() =~= parts@.subrange(0, parts@.len() - 1));
            }
            i = i + 1;
        } else if i + 1 == n {
            return Err(
                CommandError::TemplateCompile("the template ends with a dangling escape".to_owned()),
            );
        } else {
            proof {
                assert(rest[1] == text@[i + 1 as int]);
            }
            let c2 = text.get_char(i + 1);
            let part = if c2 == 'i' {
                Part::Id
            } else if c2 == 'p' {
                Part::Parents
            } else if c2 == 'm' {
                Part::Payload
            } else if c2 == '%' {
                Part::Lit('%')
            } else {
                return Err(
                    CommandError::TemplateCompile("the template holds an unknown escape".to_owned()),
                );
            };
            parts.push(part);
            proof {
                assert(rest.skip(2) =~= text@.skip(i + 2 as int));
                lemma_with_prefix_step(parts@.drop_last(), part, parse_spec(text@.skip(i + 2 as int)));
            }
            i = i + 2;
        }
    }
    proof {
        assert(text@.skip(n as int) =~= Seq::<char>::empty());
        assert(parts@ + Seq::<Part>::empty() =~= parts@);
    }
    Ok(CompiledTemplate { parts })
}

/// Law: compiled parts accumulate one part at a time.
proof fn lemma_with_prefix_step(p: Seq<Part>, x: Part, rest: Option<Seq<Part>>)
    ensures
        with_prefix(p, match rest {
            Some(r) => Some(seq![x] + r),
            None => None,
        }) == with_prefix(p.push(x), rest),
{
    match rest {
        Some(r) => {
            assert(p + (seq![x] + r) =~= p.push(x) + r);
        },
        None => {},
    }
}

/// The hexadecimal digit of one value below sixteen.
pub open spec fn hex_digit(n: int) -> char {
    if n == 0 {
        '0'
    } else if n == 1 {
        '1'
    } else if n == 2 {
        '2'
    } else if n == 3 {
        '3'
    } else if n == 4 {
        '4'
    } else if n == 5 {
        '5'
    } else if n == 6 {
        '6'
    } else if n == 7 {
        '7'
    } else if n == 8 {
        '8'
    } else if n == 9 {
        '9'
    } else if n == 10 {
        'a'
    } else if n == 11 {
        'b'
    } else if n == 12 {
        'c'
    } else if n == 13 {
        'd'
    } else if n == 14 {
        'e'
    } else {
        'f'
    }
}

/// `v` written with exactly `digits` hexadecimal digits, highest first.
pub open spec fn hex_of(v: int, digits: nat) -> Seq<char>
    decreases digits,
{
    if digits == 0 {
        Seq::<char>::empty()
    } else {
        hex_of(v / 16, (digits - 1) as nat).push(hex_digit(v % 16))
    }
}

/// How many hexadecimal digits an entry identifier renders with.
pub open spec fn id_digits() -> nat {
    16
}

fn hex_digit_char(n: u64) -> (c: char)
    requires
        n < 16,
    ensures
        c == hex_digit(n as int),
{
    if n == 0 {
        '0'
    } else if n == 1 {
        '1'
    } else if n == 2 {
        '2'
    } else if n == 3 {
        '3'
    } else if n == 4 {
        '4'
    } else if n == 5 {
        '5'
    } else if n == 6 {
        '6'
    } else if n == 7 {
        '7'
    } else if n == 8 {
        '8'
    } else if n == 9 {
        '9'
    } else if n == 10 {
        'a'
    } else if n == 11 {
        'b'
    } else if n == 12 {
        'c'
    } else if n == 13 {
        'd'
    } else if n == 14 {
        'e'
    } else {
        'f'
    }
}

fn push_hex(out: &mut String, v: u64, digits: usize)
    ensures
        final(out)@ == old(out)@ + hex_of(v as int, digits as nat),
    decreases digits,
{
    if digits == 0 {
        proof {
            assert(old(out)@ + hex_of(v as int, 0) =~= old(out)@);
        }
    } else {
        push_hex(out, v / 16, digits - 1);
        out.push(hex_digit_char(v % 16));
        proof {
            assert(old(out)@ + hex_of((v / 16) as int, (digits - 1) as nat).push(
                hex_digit((v % 16) as int),
            ) =~= (old(out)@ + hex_of((v / 16) as int, (digits - 1) as nat)).push(
                hex_digit((v % 16) as int),
            ));
        }
    }
}

/// The parent identifiers rendered in order, separated by single spaces.
pub open spec fn parents_text(parents: Seq<crate::entry::OpId>) -> Seq<char>
    decreases parents.len(),
{
    if parents.len() == 0 {
        Seq::<char>::empty()
    } else if parents.len() == 1 {
        hex_of(parents[0].value as int, id_digits())
    } else {
        parents_text(parents.drop_last()) + seq![' '] + hex_of(
            parents.last().value as int,
            id_digits(),
        )
    }
}

/// What a compiled template renders for one entry, or nothing when the
/// template asks for a payload the entry does not carry.
pub open spec fn render_spec(parts: Seq<Part>, e: HistoryEntry) -> Option<Seq<char>>
    decreases parts.len(),
{
    if parts.len() == 0 {
        Some(Seq::<char>::empty())
    } else {
        match render_spec(parts.drop_last(), e) {
            None => None,
            Some(acc) => match parts.last() {
                Part::Lit(c) => Some(acc.push(c)),
                Part::Id => Some(acc + hex_of(e.id.value as int, id_digits())),
                Part::Parents => Some(acc + parents_text(e.parents@)),
                Part::Payload => match e.payload {
                    Some(p) => Some(acc + p@),
                    None => None,
                },
            },
        }
    }
}

/// Law: once a prefix of the template fails to render, the whole template
/// fails to render.
proof fn lemma_render_none_extends(parts: Seq<Part>, e: HistoryEntry, m: int)
    requires
        0 <= m <= parts.len(),
        render_spec(parts.take(m), e) is None,
    ensures
        render_spec(parts, e) is None,
    decreases parts.len() - m,
{
    if m < parts.len() {
        assert(parts.take(m + 1).drop_last() =~= parts.take(m));
        lemma_render_none_extends(parts, e, m + 1);
    } else {
        assert(parts.take(m) =~= parts);
    }
}

/// Renders one entry through a compiled template.
pub fn render_template(t: &CompiledTemplate, e: &HistoryEntry) -> (r: Result<String, CommandError>)
    ensures
        match r {
            Ok(s) => render_spec(t.parts@, *e) == Some(s@),
            Err(err) => render_spec(t.parts@, *e) is None && err.kind()
                == crate::errors::ErrKind::TemplateRender,
        },
{
    let mut out = String::new();
    let mut k: usize = 0;
    while k < t.parts.len()
        invariant
            k <= t.parts@.len(),
            render_spec(t.parts@.take(k as int), *e) == Some(out@),
        decreases t.parts@.len() - k,
    {
        proof {
            assert(t.parts@.take(k + 1 as int).drop_last() =~= t.parts@.take(k as int));
            assert(t.parts@.take(k + 1 as int).last() == t.parts@[k as int]);
        }
        match t.parts[k] {
            Part::Lit(c) => {
                out.push(c);
            },
            Part::Id => {
                push_hex(&mut out, e.id.value, 16);
            },
            Part::Parents => {
                let mut j: usize = 0;
                while j < e.parents.len()
                    invariant
                        j <= e.parents@.len(),
                        render_spec(t.parts@.take(k as int), *e) is Some,
                        out@ == render_spec(t.parts@.take(k as int), *e)->0 + parents_text(
                            e.parents@.take(j as int),
                        ),
                    decreases e.parents@.len() - j,
                {
                    proof {
                        assert(e.parents@.take(j + 1 as int).drop_last() =~= e.parents@.take(
                            j as int,
                        ));
                        assert(e.parents@.take(j + 1 as int).last() == e.parents@[j as int]);
                    }
                    if j > 0 {
                        out.push(' ');
                    }
                    push_hex(&mut out, e.parents[j].value, 16);
                    proof {
                        let acc = render_spec(t.parts@.take(k as int), *e)->0;
                        let pj = e.parents@.take(j as int);
                        let hx = hex_of(e.parents@[j as int].value as int, id_digits());
                        if j == 0 {
                            assert(pj =~= Seq::<crate::entry::OpId>::empty());
                            assert(acc + parents_text(pj) =~= acc);
                            assert(e.parents@.take(j + 1 as int).len() == 1);
                            assert(acc + hx =~= acc + parents_text(e.parents@.take(j + 1 as int)));
                        } else {
                            assert((acc + parents_text(pj)).push(' ') + hx =~= acc + (parents_text(
                                pj,
                            ) + seq![' '] + hx));
                        }
                    }
                    j = j + 1;
                }
                proof {
                    assert(e.parents@.take(e.parents@.len() as int) =~= e.parents@);
                }
            },
            Part::Payload => {
                match &e.payload {
                    Some(p) => {
                        out.append(p.as_str());
                    },
                    None => {
                        proof {
                            lemma_render_none_extends(t.parts@, *e, k + 1);
                        }
                        return Err(
                            CommandError::TemplateRender(
                                "the template asks for a payload the entry does not carry".to_owned(),
                            ),
                        );
                    },
                }
            },
        }
        k = k + 1;
    }
    proof {
        assert(t.parts@.take(t.parts@.len() as int) =~= t.parts@);
    }
    Ok(out)
}

} // verus!
