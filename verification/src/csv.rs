//! CSV emission: field quoting, row rendering, and the line-count facts
//! that the exporter's output obeys.
//!
//! Every emitted record is one line `username,email` terminated by a line
//! feed. A field that contains a comma, a double quote, a line feed or a
//! carriage return is wrapped in double quotes, with embedded double quotes
//! doubled, so that such values cannot corrupt the column structure.

use vstd::prelude::*;

verus! {

/// Line-feed byte (`\n`), the row terminator.
pub const LINE_FEED: u8 = 10;

/// Carriage-return byte (`\r`).
pub const CARRIAGE_RETURN: u8 = 13;

/// Comma byte (`,`), the column separator.
pub const COMMA: u8 = 44;

/// Double-quote byte (`"`), the quoting character.
pub const DOUBLE_QUOTE: u8 = 34;

/// A byte that forces a field to be quoted.
pub open spec fn is_special(b: u8) -> bool {
    b == COMMA || b == DOUBLE_QUOTE || b == LINE_FEED || b == CARRIAGE_RETURN
}

/// Whether a field must be quoted before it is emitted.
pub open spec fn needs_quoting(s: Seq<u8>) -> bool {
    exists|i: int| 0 <= i < s.len() && is_special(#[trigger] s[i])
}

/// A field's bytes with every double quote doubled.
pub open spec fn escaped(s: Seq<u8>) -> Seq<u8>
    decreases s.len(),
{
    if s.len() == 0 {
        Seq::empty()
    } else {
        escaped(s.drop_last()) + (if s.last() == DOUBLE_QUOTE {
            seq![DOUBLE_QUOTE, DOUBLE_QUOTE]
        } else {
            seq![s.last()]
        })
    }
}

/// A field as it appears in the output: unchanged when it holds no special
/// byte, otherwise escaped and wrapped in double quotes.
pub open spec fn quoted_field(s: Seq<u8>) -> Seq<u8> {
    if needs_quoting(s) {
        seq![DOUBLE_QUOTE] + escaped(s) + seq![DOUBLE_QUOTE]
    } else {
        s
    }
}

/// One data row: both fields quoted as needed, separated by a comma,
/// terminated by a line feed.
pub open spec fn rendered_row(username: Seq<u8>, email: Seq<u8>) -> Seq<u8> {
    quoted_field(username) + seq![COMMA] + quoted_field(email) + seq![LINE_FEED]
}

/// The header's column names: the bytes of `username,email`.
pub open spec fn header_text() -> Seq<u8> {
    seq![117u8, 115u8, 101u8, 114u8, 110u8, 97u8, 109u8, 101u8, 44u8, 101u8, 109u8, 97u8, 105u8, 108u8]
}

/// The header row `username,email` followed by a line feed.
pub open spec fn header_bytes() -> Seq<u8> {
    header_text() + seq![LINE_FEED]
}

/// Whether a byte sequence contains a line feed.
pub open spec fn has_newline(s: Seq<u8>) -> bool {
    exists|i: int| 0 <= i < s.len() && s[i] == LINE_FEED
}

/// Number of line-feed bytes in a byte sequence; since every emitted row
/// ends in exactly one line feed, this counts output lines.
pub open spec fn newline_count(s: Seq<u8>) -> nat
    decreases s.len(),
{
    if s.len() == 0 {
        0
    } else {
        newline_count(s.drop_last()) + (if s.last() == LINE_FEED {
            1nat
        } else {
            0nat
        })
    }
}

/// Law: a row whose fields hold no special byte is emitted verbatim —
/// the username, a comma, the email, a line feed, and nothing else.
pub proof fn lemma_plain_row_verbatim(username: Seq<u8>, email: Seq<u8>)
    requires
        !needs_quoting(username),
        !needs_quoting(email),
    ensures
        rendered_row(username, email) == username + seq![COMMA] + email + seq![LINE_FEED],
{
}

/// Line-feed count of a one-byte sequence.
pub proof fn lemma_newline_count_single(b: u8)
    ensures
        newline_count(seq![b]) == (if b == LINE_FEED {
            1nat
        } else {
            0nat
        }),
{
    let s = seq![b];
    assert(s.len() == 1);
    assert(s.last() == b);
    assert(s.drop_last() =~= Seq::<u8>::empty());
    assert(newline_count(Seq::<u8>::empty()) == 0);
}

/// Line feeds in a concatenation are the line feeds of the parts.
pub proof fn lemma_newline_count_concat(a: Seq<u8>, b: Seq<u8>)
    ensures
        newline_count(a + b) == newline_count(a) + newline_count(b),
    decreases b.len(),
{
    if b.len() == 0 {
        assert(a + b =~= a);
    } else {
        lemma_newline_count_concat(a, b.drop_last());
        assert((a + b).drop_last() =~= a + b.drop_last());
        assert((a + b).last() == b.last());
    }
}

/// A sequence without line feeds has a line-feed count of zero.
pub proof fn lemma_no_newline_count_zero(s: Seq<u8>)
    requires
        !has_newline(s),
    ensures
        newline_count(s) == 0,
    decreases s.len(),
{
    if s.len() > 0 {
        assert(!has_newline(s.drop_last()));
        lemma_no_newline_count_zero(s.drop_last());
        assert(s.last() == s[s.len() - 1]);
    }
}

/// Escaping doubles only quotes, so it neither adds nor removes line feeds.
pub proof fn lemma_escaped_newline_count(s: Seq<u8>)
    ensures
        newline_count(escaped(s)) == newline_count(s),
    decreases s.len(),
{
    if s.len() > 0 {
        lemma_escaped_newline_count(s.drop_last());
        if s.last() == DOUBLE_QUOTE {
            lemma_newline_count_concat(escaped(s.drop_last()), seq![DOUBLE_QUOTE, DOUBLE_QUOTE]);
            lemma_newline_count_concat(seq![DOUBLE_QUOTE], seq![DOUBLE_QUOTE]);
            lemma_newline_count_single(DOUBLE_QUOTE);
            assert(seq![DOUBLE_QUOTE, DOUBLE_QUOTE] =~= seq![DOUBLE_QUOTE] + seq![DOUBLE_QUOTE]);
        } else {
            lemma_newline_count_concat(escaped(s.drop_last()), seq![s.last()]);
            lemma_newline_count_single(s.last());
        }
    }
}

/// Quoting a field keeps its line-feed count unchanged.
pub proof fn lemma_quoted_field_newline_count(s: Seq<u8>)
    ensures
        newline_count(quoted_field(s)) == newline_count(s),
{
    if needs_quoting(s) {
        lemma_escaped_newline_count(s);
        lemma_newline_count_concat(seq![DOUBLE_QUOTE], escaped(s));
        lemma_newline_count_concat(seq![DOUBLE_QUOTE] + escaped(s), seq![DOUBLE_QUOTE]);
        lemma_newline_count_single(DOUBLE_QUOTE);
    }
}

/// A row whose fields hold no line feed is exactly one output line.
pub proof fn lemma_row_newline_count(username: Seq<u8>, email: Seq<u8>)
    requires
        !has_newline(username),
        !has_newline(email),
    ensures
        newline_count(rendered_row(username, email)) == 1,
{
    lemma_no_newline_count_zero(username);
    lemma_no_newline_count_zero(email);
    lemma_quoted_field_newline_count(username);
    lemma_quoted_field_newline_count(email);
    lemma_newline_count_concat(quoted_field(username), seq![COMMA]);
    lemma_newline_count_concat(quoted_field(username) + seq![COMMA], quoted_field(email));
    lemma_newline_count_concat(
        quoted_field(username) + seq![COMMA] + quoted_field(email),
        seq![LINE_FEED],
    );
    lemma_newline_count_single(COMMA);
    lemma_newline_count_single(LINE_FEED);
    assert(rendered_row(username, email) =~= (quoted_field(username) + seq![COMMA] + quoted_field(
        email,
    )) + seq![LINE_FEED]);
}

/// The header is exactly one output line.
pub proof fn lemma_header_newline_count()
    ensures
        newline_count(header_bytes()) == 1,
{
    assert(!has_newline(header_text())) by {
        assert forall|i: int| 0 <= i < header_text().len() implies header_text()[i]
            != LINE_FEED by {
            assert(header_text()[0] == 117u8);
            assert(header_text()[1] == 115u8);
            assert(header_text()[2] == 101u8);
            assert(header_text()[3] == 114u8);
            assert(header_text()[4] == 110u8);
            assert(header_text()[5] == 97u8);
            assert(header_text()[6] == 109u8);
            assert(header_text()[7] == 101u8);
            assert(header_text()[8] == 44u8);
            assert(header_text()[9] == 101u8);
            assert(header_text()[10] == 109u8);
            assert(header_text()[11] == 97u8);
            assert(header_text()[12] == 105u8);
            assert(header_text()[13] == 108u8);
        }
    }
    lemma_no_newline_count_zero(header_text());
    lemma_newline_count_concat(header_text(), seq![LINE_FEED]);
    lemma_newline_count_single(LINE_FEED);
}

/// Whether a byte forces quoting, decided in executable code.
fn byte_is_special(b: u8) -> (r: bool)
    ensures
        r == is_special(b),
{
    b == COMMA || b == DOUBLE_QUOTE || b == LINE_FEED || b == CARRIAGE_RETURN
}

/// Whether a field must be quoted, decided in executable code.
fn field_needs_quoting(f: &Vec<u8>) -> (r: bool)
    ensures
        r == needs_quoting(f@),
{
    let n = f.len();
    for i in 0..n
        invariant
            n == f@.len(),
            forall|j: int| 0 <= j < i ==> !is_special(#[trigger] f@[j]),
    {
        if byte_is_special(f[i]) {
            return true;
        }
    }
    false
}

/// Appends one field onto `out`, quoted exactly when it needs to be.
pub fn push_quoted_field(out: &mut Vec<u8>, f: &Vec<u8>)
    ensures
        final(out)@ == old(out)@ + quoted_field(f@),
{
    if !field_needs_quoting(f) {
        let ghost base = out@;
        let n = f.len();
        for i in 0..n
            invariant
                n == f@.len(),
                out@ == base + f@.subrange(0, i as int),
        {
            out.push(f[i]);
            proof {
                assert(f@.subrange(0, i + 1) =~= f@.subrange(0, i as int) + seq![f@[i as int]]);
                assert(base + f@.subrange(0, i + 1) =~= (base + f@.subrange(0, i as int)).push(
                    f@[i as int],
                ));
            }
        }
        proof {
            assert(f@.subrange(0, n as int) =~= f@);
        }
    } else {
        let ghost base = out@;
        out.push(DOUBLE_QUOTE);
        let n = f.len();
        for i in 0..n
            invariant
                n == f@.len(),
                out@ == base + seq![DOUBLE_QUOTE] + escaped(f@.subrange(0, i as int)),
        {
            let b = f[i];
            let ghost pre = f@.subrange(0, i as int);
            out.push(b);
            if b == DOUBLE_QUOTE {
                out.push(DOUBLE_QUOTE);
            }
            proof {
                assert(f@.subrange(0, i + 1).drop_last() =~= pre);
                assert(f@.subrange(0, i + 1).last() == f@[i as int]);
                if b == DOUBLE_QUOTE {
                    assert(base + seq![DOUBLE_QUOTE] + escaped(f@.subrange(0, i + 1)) =~= ((base
                        + seq![DOUBLE_QUOTE] + escaped(pre)).push(b)).push(DOUBLE_QUOTE));
                } else {
                    assert(base + seq![DOUBLE_QUOTE] + escaped(f@.subrange(0, i + 1)) =~= (base
                        + seq![DOUBLE_QUOTE] + escaped(pre)).push(b));
                }
            }
        }
        out.push(DOUBLE_QUOTE);
        proof {
            assert(f@.subrange(0, f@.len() as int) =~= f@);
            assert(old(out)@ + quoted_field(f@) =~= base + seq![DOUBLE_QUOTE] + escaped(f@) + seq![
                DOUBLE_QUOTE,
            ]);
            assert(out@ =~= base + seq![DOUBLE_QUOTE] + escaped(f@) + seq![DOUBLE_QUOTE]);
        }
    }
}

/// Renders one data row `username,email` with a trailing line feed.
pub fn csv_row(username: &Vec<u8>, email: &Vec<u8>) -> (row: Vec<u8>)
    ensures
        row@ == rendered_row(username@, email@),
{
    let mut row: Vec<u8> = Vec::new();
    push_quoted_field(&mut row, username);
    row.push(COMMA);
    push_quoted_field(&mut row, email);
    row.push(LINE_FEED);
    proof {
        assert(row@ =~= rendered_row(username@, email@));
    }
    row
}

/// Renders the header row `username,email` with a trailing line feed.
pub fn csv_header() -> (h: Vec<u8>)
    ensures
        h@ == header_bytes(),
{
    let mut h: Vec<u8> = Vec::new();
    h.push(117u8);
    h.push(115u8);
    h.push(101u8);
    h.push(114u8);
    h.push(110u8);
    h.push(97u8);
    h.push(109u8);
    h.push(101u8);
    h.push(44u8);
    h.push(101u8);
    h.push(109u8);
    h.push(97u8);
    h.push(105u8);
    h.push(108u8);
    h.push(LINE_FEED);
    proof {
        assert(h@ =~= header_bytes());
    }
    h
}

} // verus!
