//! Delimited SQL identifiers.

use vstd::prelude::*;
use crate::text::{chars_of, push_char};

verus! {

/// What one character of a name becomes inside a delimited identifier:
/// a double quote is doubled, anything else is kept.
pub open spec fn identifier_piece(c: char) -> Seq<char> {
    if c == '"' {
        seq!['"', '"']
    } else {
        seq![c]
    }
}

/// The body of a delimited identifier for `name`: every `"` doubled.
pub open spec fn double_quotes(name: Seq<char>) -> Seq<char>
    decreases name.len(),
{
    if name.len() == 0 {
        Seq::<char>::empty()
    } else {
        identifier_piece(name[0]) + double_quotes(name.drop_first())
    }
}

/// The delimited identifier for `name`: `"` + body + `"`.
pub open spec fn quoted_identifier(name: Seq<char>) -> Seq<char> {
    seq!['"'] + double_quotes(name) + seq!['"']
}

pub proof fn lemma_double_quotes_push(name: Seq<char>, c: char)
    ensures
        double_quotes(name.push(c)) == double_quotes(name) + identifier_piece(c),
    decreases name.len(),
{
    if name.len() == 0 {
        assert(name.push(c).drop_first() =~= Seq::<char>::empty());
        assert(name.push(c)[0] == c);
        assert(double_quotes(Seq::<char>::empty()) =~= Seq::<char>::empty());
        assert(double_quotes(name) =~= Seq::<char>::empty());
        assert(double_quotes(name.push(c)) =~= identifier_piece(c) + Seq::<char>::empty());
    } else {
        lemma_double_quotes_push(name.drop_first(), c);
        assert(name.push(c).drop_first() =~= name.drop_first().push(c));
        assert(name.push(c)[0] == name[0]);
        assert(double_quotes(name.push(c)) =~= identifier_piece(name[0]) + (double_quotes(
            name.drop_first(),
        ) + identifier_piece(c)));
    }
}

/// `quote_identifier`: wraps a name in double quotes, doubling every double
/// quote inside it, so that PostgreSQL reads it as one delimited identifier.
pub fn quote_identifier(identifier: &str) -> (quoted: String)
    ensures
        quoted@ == quoted_identifier(identifier@),
{
    let chars = chars_of(identifier);
    let mut out = String::new();
    push_char(&mut out, '"');
    let mut i: usize = 0;
    assert(chars@.take(0) =~= Seq::<char>::empty());
    while i < chars.len()
        invariant
            0 <= i <= chars@.len(),
            out@ == seq!['"'] + double_quotes(chars@.take(i as int)),
        decreases chars@.len() - i,
    {
        let c = chars[i];
        proof {
            lemma_double_quotes_push(chars@.take(i as int), c);
            assert(chars@.take(i + 1) =~= chars@.take(i as int).push(c));
        }
        if c == '"' {
            push_char(&mut out, '"');
            push_char(&mut out, '"');
        } else {
            push_char(&mut out, c);
        }
        i += 1;
    }
    assert(chars@.take(chars@.len() as int) =~= chars@);
    push_char(&mut out, '"');
    out
}

/// The model of how PostgreSQL reads the rest of a delimited identifier after its opening
/// quote: `""` stands for one `"`, and a lone `"` closes the identifier.
/// The result is the name read and the number of characters consumed,
/// closing quote included; `None` when the identifier is never closed.
pub open spec fn read_delimited(t: Seq<char>) -> Option<(Seq<char>, nat)>
    decreases t.len(),
{
    if t.len() == 0 {
        None
    } else if t[0] == '"' {
        if t.len() >= 2 && t[1] == '"' {
            match read_delimited(t.subrange(2, t.len() as int)) {
                Some((name, n)) => Some((seq!['"'] + name, n + 2)),
                None => None,
            }
        } else {
            Some((Seq::<char>::empty(), 1))
        }
    } else {
        match read_delimited(t.drop_first()) {
            Some((name, n)) => Some((seq![t[0]] + name, n + 1)),
            None => None,
        }
    }
}

/// A quoted identifier is read back as exactly the original name, and the
/// identifier ends exactly where the quoting ends: text that follows it (and
/// does not itself begin with a double quote) can never become part of it.
pub proof fn quoted_identifier_reads_back(name: Seq<char>, rest: Seq<char>)
    requires
        rest.len() == 0 || rest[0] != '"',
    ensures
        quoted_identifier(name)[0] == '"',
        read_delimited((quoted_identifier(name) + rest).drop_first()) == Some(
            (name, (quoted_identifier(name).len() - 1) as nat),
        ),
    decreases name.len(),
{
    assert((quoted_identifier(name) + rest).drop_first() =~= double_quotes(name) + seq!['"']
        + rest);
    lemma_read_body(name, rest);
}

proof fn lemma_read_body(name: Seq<char>, rest: Seq<char>)
    requires
        rest.len() == 0 || rest[0] != '"',
    ensures
        read_delimited(double_quotes(name) + seq!['"'] + rest) == Some(
            (name, double_quotes(name).len() + 1),
        ),
    decreases name.len(),
{
    let t = double_quotes(name) + seq!['"'] + rest;
    if name.len() == 0 {
        assert(t =~= seq!['"'] + rest);
        assert(t[0] == '"');
        assert(!(t.len() >= 2 && t[1] == '"'));
    } else {
        let tail = name.drop_first();
        lemma_read_body(tail, rest);
        let u = double_quotes(tail) + seq!['"'] + rest;
        if name[0] == '"' {
            assert(t =~= seq!['"', '"'] + u);
            assert(t.subrange(2, t.len() as int) =~= u);
            assert(seq!['"'] + tail =~= name);
        } else {
            assert(t =~= seq![name[0]] + u);
            assert(t.drop_first() =~= u);
            assert(seq![name[0]] + tail =~= name);
        }
    }
}

} // verus!
