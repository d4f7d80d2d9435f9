//! Escaping of markdown-control characters in untrusted free text.

use vstd::prelude::*;
use crate::text::{chars_to_string, str_to_chars};

verus! {

/// The characters the substitution table rewrites.
pub open spec fn is_target_char(c: char) -> bool {
    c == '\\' || c == '#' || c == '@' || is_backslash_escaped(c)
}

/// The characters that are escaped by prefixing a backslash.
pub open spec fn is_backslash_escaped(c: char) -> bool {
    c == '|' || c == '~' || c == '[' || c == '*' || c == '_' || c == '`' || c == '>'
}

/// What one character of input contributes to the sanitized output: a
/// backslash is doubled, `#` and `@` get a zero-width space appended, the
/// other markdown-control characters are prefixed with a backslash, and
/// everything else passes through.
pub open spec fn escape_char(c: char) -> Seq<char> {
    if c == '\\' {
        seq!['\\', '\\']
    } else if c == '#' {
        seq!['#', '\u{200B}']
    } else if c == '@' {
        seq!['@', '\u{200B}']
    } else if is_backslash_escaped(c) {
        seq!['\\', c]
    } else {
        seq![c]
    }
}

/// The sanitized form of a text: each character replaced by its substitution,
/// in order.  Escaping the backslash itself first and in one pass means the
/// backslashes inserted for the other characters are never re-escaped.
pub open spec fn sanitize_spec(s: Seq<char>) -> Seq<char>
    decreases s.len(),
{
    if s.len() == 0 {
        Seq::<char>::empty()
    } else {
        sanitize_spec(s.drop_last()) + escape_char(s.last())
    }
}

/// The greedy left-to-right decoding of a sanitized text: a backslash escapes
/// the character after it, and a zero-width space after `#` or `@` is
/// dropped.
pub open spec fn unsanitize_spec(s: Seq<char>) -> Seq<char>
    decreases s.len(),
{
    if s.len() == 0 {
        Seq::<char>::empty()
    } else if s.len() >= 2 && s[0] == '\\' {
        seq![s[1]] + unsanitize_spec(s.skip(2))
    } else if s.len() >= 2 && (s[0] == '#' || s[0] == '@') && s[1] == '\u{200B}' {
        seq![s[0]] + unsanitize_spec(s.skip(2))
    } else {
        seq![s[0]] + unsanitize_spec(s.skip(1))
    }
}

/// Escapes markdown-control characters using the fixed substitution table.
pub fn sanitize(input: String) -> (r: String)
    ensures
        r@ == sanitize_spec(input@),
{
    let chars = str_to_chars(input.as_str());
    let mut out: Vec<char> = Vec::new();
    let mut i: usize = 0;
    while i < chars.len()
        invariant
            chars@ == input@,
            i <= chars@.len(),
            out@ == sanitize_spec(input@.take(i as int)),
        decreases chars@.len() - i,
    {
        let ghost pre = input@.take(i as int);
        let c = chars[i];
        if c == '\\' {
            out.push('\\');
            out.push('\\');
        } else if c == '#' {
            out.push('#');
            out.push('\u{200B}');
        } else if c == '@' {
            out.push('@');
            out.push('\u{200B}');
        } else if c == '|' || c == '~' || c == '[' || c == '*' || c == '_' || c == '`' || c
            == '>' {
            out.push('\\');
            out.push(c);
        } else {
            out.push(c);
        }
        i = i + 1;
        proof {
            let cur = input@.take(i as int);
            assert(cur.drop_last() =~= pre);
            assert(cur.last() == c);
            assert(out@ =~= sanitize_spec(pre) + escape_char(c));
        }
    }
    proof {
        assert(input@.take(input@.len() as int) =~= input@);
    }
    chars_to_string(&out)
}

/// Front-unfolding of the sanitized form: the substitution of the first
/// character, then the sanitized rest.
proof fn lemma_sanitize_front(s: Seq<char>)
    requires
        s.len() > 0,
    ensures
        sanitize_spec(s) == escape_char(s[0]) + sanitize_spec(s.skip(1)),
    decreases s.len(),
{
    if s.len() == 1 {
        assert(s.drop_last() =~= Seq::<char>::empty());
        assert(s.skip(1) =~= Seq::<char>::empty());
        assert(sanitize_spec(s) =~= escape_char(s[0]) + sanitize_spec(s.skip(1)));
    } else {
        lemma_sanitize_front(s.drop_last());
        assert(s.drop_last()[0] == s[0]);
        assert(s.drop_last().skip(1) =~= s.skip(1).drop_last());
        assert(s.skip(1).last() == s.last());
        assert(sanitize_spec(s.skip(1)) == sanitize_spec(s.skip(1).drop_last()) + escape_char(
            s.last(),
        ));
        assert(sanitize_spec(s) =~= escape_char(s[0]) + sanitize_spec(s.skip(1)));
    }
}

/// Unescaping the defined substitutions recovers the original text: the
/// substitution table is an injective code that the greedy decoder inverts,
/// for every input.
pub proof fn lemma_sanitize_round_trip(s: Seq<char>)
    ensures
        unsanitize_spec(sanitize_spec(s)) == s,
    decreases s.len(),
{
    if s.len() == 0 {
        assert(unsanitize_spec(sanitize_spec(s)) =~= s);
    } else {
        let c = s[0];
        let rest = s.skip(1);
        lemma_sanitize_front(s);
        lemma_sanitize_round_trip(rest);
        let e = sanitize_spec(s);
        assert(e == escape_char(c) + sanitize_spec(rest));
        if c == '\\' || is_backslash_escaped(c) {
            assert(e[0] == '\\' && e[1] == c);
            assert(e.skip(2) =~= sanitize_spec(rest));
            assert(unsanitize_spec(e) =~= seq![c] + rest);
            assert(seq![c] + rest =~= s);
        } else if c == '#' || c == '@' {
            assert(e[0] == c && e[1] == '\u{200B}');
            assert(e.skip(2) =~= sanitize_spec(rest));
            assert(unsanitize_spec(e) =~= seq![c] + rest);
            assert(seq![c] + rest =~= s);
        } else {
            assert(e[0] == c);
            assert(e.skip(1) =~= sanitize_spec(rest));
            if e.len() >= 2 && e[0] == '\\' {
                assert(false);
            }
            if e.len() >= 2 && (e[0] == '#' || e[0] == '@') && e[1] == '\u{200B}' {
                assert(false);
            }
            assert(unsanitize_spec(e) =~= seq![c] + rest);
            assert(seq![c] + rest =~= s);
        }
    }
}

/// On text containing none of the substituted characters, sanitization is the
/// identity, and therefore idempotent.
pub proof fn lemma_sanitize_identity_on_clean(s: Seq<char>)
    requires
        forall|i: int| 0 <= i < s.len() ==> !is_target_char(#[trigger] s[i]),
    ensures
        sanitize_spec(s) == s,
    decreases s.len(),
{
    if s.len() > 0 {
        lemma_sanitize_identity_on_clean(s.drop_last());
        assert(!is_target_char(s.last()));
        assert(sanitize_spec(s) =~= s.drop_last() + seq![s.last()]);
        assert(s.drop_last() + seq![s.last()] =~= s);
    }
}

/// Sanitization is idempotent on text containing none of the substituted
/// characters.
pub proof fn lemma_sanitize_idempotent_on_clean(s: Seq<char>)
    requires
        forall|i: int| 0 <= i < s.len() ==> !is_target_char(#[trigger] s[i]),
    ensures
        sanitize_spec(sanitize_spec(s)) == sanitize_spec(s),
{
    lemma_sanitize_identity_on_clean(s);
}

} // verus!
