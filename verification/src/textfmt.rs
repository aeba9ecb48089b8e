//! Width-constrained text formatting: wrapping to a column budget with
//! terminal-aware character widths, and trailing-terminator normalization.

use vstd::prelude::*;

verus! {

/// Relies on `String::push`: appends the given character to the end of the
/// string.
pub assume_specification[ String::push ](s: &mut String, ch: char)
    ensures
        final(s)@ == old(s)@.push(ch),
;

/// The terminal column width of a character, as the Unicode width tables give
/// it: wide characters take two columns, combining marks none. A result of
/// `None` marks a control character, which has no defined width.
pub uninterp spec fn char_width(c: char) -> Option<usize>;

/// Relies on `unicode_width::UnicodeWidthChar::width`: the column width of a
/// character in a monospaced terminal, a function of the character alone.
#[verifier::external_body]
fn measure_char(c: char) -> (r: Option<usize>)
    ensures
        r == char_width(c),
{
    unicode_width::UnicodeWidthChar::width(c)
}

/// The column budget a character uses: its Unicode width, with the undefined
/// width of control characters counted as zero.
pub open spec fn spec_cols(c: char) -> nat {
    match char_width(c) {
        Some(w) => w as nat,
        None => 0,
    }
}

fn cols_of(c: char) -> (r: usize)
    ensures
        r as nat == spec_cols(c),
{
    match measure_char(c) {
        Some(w) => w,
        None => 0,
    }
}

/// One left-to-right wrapping pass: the text emitted so far and the column
/// the cursor stands in. A newline resets the column; a character that would
/// run past the budget of a non-empty line starts a new line first. A budget
/// of zero disables wrapping altogether.
pub open spec fn wrap_state(s: Seq<char>, width: nat) -> (Seq<char>, nat)
    decreases s.len(),
{
    if s.len() == 0 {
        (Seq::<char>::empty(), 0 as nat)
    } else {
        let (out, col) = wrap_state(s.drop_last(), width);
        let c = s.last();
        if c == '\n' {
            (out.push(c), 0 as nat)
        } else {
            let w = spec_cols(c);
            if width > 0 && col > 0 && col + w > width {
                (out.push('\n').push(c), w)
            } else {
                (out.push(c), if width == 0 { 0 as nat } else { (col + w) as nat })
            }
        }
    }
}

/// The text `s` wrapped to `width` columns.
pub open spec fn wrap_spec(s: Seq<char>, width: nat) -> Seq<char> {
    wrap_state(s, width).0
}

/// Wraps `text` to at most `width` terminal columns per line, keeping the
/// newlines it already has. A single character wider than the whole budget
/// stands alone on its line; a budget of zero passes the text through.
pub fn wrap_text(text: &str, width: usize) -> (r: String)
    ensures
        r@ == wrap_spec(text@, width as nat),
{
    let n = text.unicode_len();
    let mut out = String::new();
    let mut col: usize = 0;
    let mut i: usize = 0;
    while i < n
        invariant
            n == text@.len(),
            i <= n,
            out@ == wrap_state(text@.take(i as int), width as nat).0,
            col as nat == wrap_state(text@.take(i as int), width as nat).1,
        decreases n - i,
    {
        let c = text.get_char(i);
        proof {
            assert(text@.take(i + 1 as int).drop_last() =~= text@.take(i as int));
            assert(text@.take(i + 1 as int).last() == text@[i as int]);
        }
        if c == '\n' {
            out.push(c);
            col = 0;
        } else {
            let w = cols_of(c);
            if width > 0 && col > 0 && (w > width || col > width - w) {
                out.push('\n');
                out.push(c);
                col = w;
            } else {
                out.push(c);
                col = if width == 0 {
                    0
                } else {
                    col + w
                };
            }
        }
        i = i + 1;
    }
    proof {
        assert(text@.take(n as int) =~= text@);
    }
    out
}

/// `s` with every trailing line terminator removed.
pub open spec fn trimmed(s: Seq<char>) -> Seq<char>
    decreases s.len(),
{
    if s.len() > 0 && s.last() == '\n' {
        trimmed(s.drop_last())
    } else {
        s
    }
}

/// The normalized form of a rendered block: whatever the template emitted,
/// with its trailing terminators replaced by exactly one.
pub open spec fn normalize_spec(s: Seq<char>) -> Seq<char> {
    trimmed(s).push('\n')
}

/// What normalization guarantees of every rendered block: it is non-empty,
/// its final character is a line terminator, and that terminator is the only
/// trailing one.
pub open spec fn is_normal_block(s: Seq<char>) -> bool {
    &&& s.len() > 0
    &&& s.last() == '\n'
    &&& s.len() >= 2 ==> s[s.len() - 2] != '\n'
}

/// Law: a trimmed text has no trailing terminator left.
pub proof fn lemma_trimmed_has_no_terminator(s: Seq<char>)
    ensures
        trimmed(s).len() > 0 ==> trimmed(s).last() != '\n',
    decreases s.len(),
{
    if s.len() > 0 && s.last() == '\n' {
        lemma_trimmed_has_no_terminator(s.drop_last());
    }
}

/// Law: every normalized block ends with exactly one line terminator,
/// regardless of how many the template emitted.
pub proof fn lemma_normalize_is_normal(s: Seq<char>)
    ensures
        is_normal_block(normalize_spec(s)),
{
    lemma_trimmed_has_no_terminator(s);
}

/// Law: normalization is idempotent, so re-formatting an already normalized
/// block changes nothing.
pub proof fn lemma_normalize_idempotent(s: Seq<char>)
    ensures
        normalize_spec(normalize_spec(s)) == normalize_spec(s),
{
    let t = trimmed(s);
    lemma_trimmed_has_no_terminator(s);
    assert(t.push('\n').drop_last() =~= t);
    assert(t.push('\n').last() == '\n');
    assert(trimmed(t.push('\n')) == trimmed(t));
    assert(trimmed(t) == t);
}

/// Normalizes a rendered block to end with exactly one line terminator.
pub fn normalize(s: &str) -> (r: String)
    ensures
        r@ == normalize_spec(s@),
{
    let n = s.unicode_len();
    proof {
        assert(s@.take(n as int) =~= s@);
    }
    let mut k = n;
    while k > 0 && s.get_char(k - 1) == '\n'
        invariant
            n == s@.len(),
            k <= n,
            trimmed(s@) == trimmed(s@.take(k as int)),
        decreases k,
    {
        proof {
            assert(s@.take(k as int).last() == s@[k - 1 as int]);
            assert(s@.take(k as int).drop_last() =~= s@.take(k - 1 as int));
        }
        k = k - 1;
    }
    proof {
        if k > 0 {
            assert(s@.take(k as int).last() == s@[k - 1 as int]);
        }
        assert(trimmed(s@.take(k as int)) == s@.take(k as int));
    }
    let mut out = String::new();
    let mut i: usize = 0;
    while i < k
        invariant
            k <= n,
            n == s@.len(),
            out@ == s@.take(i as int),
            i <= k,
        decreases k - i,
    {
        out.push(s.get_char(i));
        proof {
            assert(s@.take(i + 1 as int) =~= s@.take(i as int).push(s@[i as int]));
        }
        i = i + 1;
    }
    out.push('\n');
    out
}

} // verus!
