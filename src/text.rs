//! Small verified string helpers shared by the other modules.
use vstd::prelude::*;
use vstd::string::*;

verus! {

/// Whether `needle` occurs in `hay` as a contiguous run of characters.
pub open spec fn has_infix(hay: Seq<char>, needle: Seq<char>) -> bool {
    exists|i: int| 0 <= i && i + needle.len() <= hay.len() && #[trigger] hay.subrange(i, i + needle.len()) == needle
}

/// Character-by-character equality of two string slices.
pub fn str_eq(a: &str, b: &str) -> (r: bool)
    ensures
        r == (a@ == b@),
{
    let n = a.unicode_len();
    let m = b.unicode_len();
    if n != m {
        return false;
    }
    let mut i: usize = 0;
    while i < n
        invariant
            n == a@.len(),
            m == b@.len(),
            n == m,
            i <= n,
            forall|j: int| 0 <= j < i ==> a@[j] == b@[j],
        decreases n - i,
    {
        if a.get_char(i) != b.get_char(i) {
            return false;
        }
        i = i + 1;
    }
    assert(a@ =~= b@);
    true
}

/// Whether `needle` occurs in `hay`.
pub fn contains(hay: &str, needle: &str) -> (r: bool)
    ensures
        r == has_infix(hay@, needle@),
{
    let n = hay.unicode_len();
    let m = needle.unicode_len();
    if m > n {
        return false;
    }
    if m == 0 {
        assert(hay@.subrange(0int, 0int + needle@.len()) =~= needle@);
        return true;
    }
    let mut i: usize = 0;
    while i <= n - m
        invariant
            n == hay@.len(),
            m == needle@.len(),
            0 < m <= n,
            i <= n - m + 1,
            forall|j: int| 0 <= j < i ==> #[trigger] hay@.subrange(j, j + m) != needle@,
        decreases n - m + 1 - i,
    {
        if str_eq(hay.substring_char(i, i + m), needle) {
            return true;
        }
        i = i + 1;
    }
    false
}

/// A fresh `String` holding the characters of `s`.
pub fn owned(s: &str) -> (r: String)
    ensures
        r@ == s@,
{
    String::from_str(s)
}

/// `s` followed by `t`, as a new `String`.
pub fn concat2(s: &str, t: &str) -> (r: String)
    ensures
        r@ == s@ + t@,
{
    let mut r = String::from_str(s);
    r.append(t);
    r
}

/// The text that stands for one character inside a POSIX single-quoted word:
/// a single quote closes the word, adds a double-quoted quote, and reopens it.
pub open spec fn posix_piece(c: char) -> Seq<char> {
    if c == '\'' {
        seq!['\'', '"', '\'', '"', '\'']
    } else {
        seq![c]
    }
}

/// The body of a POSIX single-quoted word that stands for `s`.
pub open spec fn posix_body(s: Seq<char>) -> Seq<char>
    decreases s.len(),
{
    if s.len() == 0 {
        Seq::empty()
    } else {
        posix_body(s.drop_last()) + posix_piece(s.last())
    }
}

/// `s` as a single POSIX (or fish) shell word.
pub open spec fn posix_quoted(s: Seq<char>) -> Seq<char> {
    seq!['\''] + posix_body(s) + seq!['\'']
}

/// The text that stands for one character inside a PowerShell single-quoted
/// string: a single quote is doubled.
pub open spec fn ps_piece(c: char) -> Seq<char> {
    if c == '\'' {
        seq!['\'', '\'']
    } else {
        seq![c]
    }
}

/// The body of a PowerShell single-quoted string that stands for `s`.
pub open spec fn ps_body(s: Seq<char>) -> Seq<char>
    decreases s.len(),
{
    if s.len() == 0 {
        Seq::empty()
    } else {
        ps_body(s.drop_last()) + ps_piece(s.last())
    }
}

/// `s` as a single PowerShell string literal.
pub open spec fn ps_quoted(s: Seq<char>) -> Seq<char> {
    seq!['\''] + ps_body(s) + seq!['\'']
}

/// Wraps `s` in single quotes for a POSIX-like shell, closing and reopening
/// the quote around each embedded single quote.
pub fn escape_shell(s: &str) -> (r: String)
    ensures
        r@ == posix_quoted(s@),
{
    let n = s.unicode_len();
    let mut r = String::from_str("'");
    proof {
        reveal_strlit("'");
    }
    let mut i: usize = 0;
    while i < n
        invariant
            n == s@.len(),
            i <= n,
            r@ == seq!['\''] + posix_body(s@.subrange(0, i as int)),
        decreases n - i,
    {
        let c = s.get_char(i);
        let ghost before = r@;
        if c == '\'' {
            r.append("'\"'\"'");
            proof {
                reveal_strlit("'\"'\"'");
            }
        } else {
            r.append(s.substring_char(i, i + 1));
        }
        proof {
            let p = s@.subrange(0, i + 1);
            assert(p.drop_last() =~= s@.subrange(0, i as int));
            assert(p.last() == c);
            assert(r@ =~= before + posix_piece(c));
        }
        i = i + 1;
    }
    assert(s@.subrange(0, n as int) =~= s@);
    r.append("'");
    r
}

/// Wraps `s` in single quotes for PowerShell, doubling each embedded single
/// quote.
pub fn escape_powershell(s: &str) -> (r: String)
    ensures
        r@ == ps_quoted(s@),
{
    let n = s.unicode_len();
    let mut r = String::from_str("'");
    proof {
        reveal_strlit("'");
    }
    let mut i: usize = 0;
    while i < n
        invariant
            n == s@.len(),
            i <= n,
            r@ == seq!['\''] + ps_body(s@.subrange(0, i as int)),
        decreases n - i,
    {
        let c = s.get_char(i);
        let ghost before = r@;
        if c == '\'' {
            r.append("''");
            proof {
                reveal_strlit("''");
            }
        } else {
            r.append(s.substring_char(i, i + 1));
        }
        proof {
            let p = s@.subrange(0, i + 1);
            assert(p.drop_last() =~= s@.subrange(0, i as int));
            assert(p.last() == c);
            assert(r@ =~= before + ps_piece(c));
        }
        i = i + 1;
    }
    assert(s@.subrange(0, n as int) =~= s@);
    r.append("'");
    r
}

/// Where a POSIX shell stands while it reads a word.
pub enum QuoteMode {
    Plain,
    Single,
    Double,
}

/// `p` in front of the value read, if reading succeeded.
pub open spec fn prefixed(p: Seq<char>, o: Option<Seq<char>>) -> Option<Seq<char>> {
    match o {
        Some(v) => Some(p + v),
        None => None,
    }
}

/// The value a POSIX shell assigns from the word `w` read in mode `m`,
/// following its quote-removal rules for single quotes, double quotes and
/// plain characters. Words that would expand or split (a `$`, a backquote, a
/// backslash, a blank, an unterminated quote) have no value here.
pub open spec fn sh_read(w: Seq<char>, m: QuoteMode) -> Option<Seq<char>>
    decreases w.len(),
{
    if w.len() == 0 {
        match m {
            QuoteMode::Plain => Some(Seq::empty()),
            _ => None,
        }
    } else {
        let c = w[0];
        let rest = w.drop_first();
        match m {
            QuoteMode::Plain => if c == '\'' {
                sh_read(rest, QuoteMode::Single)
            } else if c == '"' {
                sh_read(rest, QuoteMode::Double)
            } else if c == '$' || c == '`' || c == '\\' || c == ' ' || c == '\t' || c == '\n' || c == ';'
                || c == '&' || c == '|' || c == '<' || c == '>' || c == '(' || c == ')' || c == '*'
                || c == '?' || c == '[' || c == '#' || c == '~' {
                None
            } else {
                prefixed(seq![c], sh_read(rest, QuoteMode::Plain))
            },
            QuoteMode::Single => if c == '\'' {
                sh_read(rest, QuoteMode::Plain)
            } else {
                prefixed(seq![c], sh_read(rest, QuoteMode::Single))
            },
            QuoteMode::Double => if c == '"' {
                sh_read(rest, QuoteMode::Plain)
            } else if c == '$' || c == '`' || c == '\\' {
                None
            } else {
                prefixed(seq![c], sh_read(rest, QuoteMode::Double))
            },
        }
    }
}

proof fn lemma_piece_read(c: char, t: Seq<char>)
    ensures
        sh_read(posix_piece(c) + t, QuoteMode::Single) == prefixed(seq![c], sh_read(t, QuoteMode::Single)),
{
    let w = posix_piece(c) + t;
    if c == '\'' {
        assert(w[0] == '\'');
        let w1 = w.drop_first();
        assert(w1[0] == '"');
        let w2 = w1.drop_first();
        assert(w2[0] == '\'');
        let w3 = w2.drop_first();
        assert(w3[0] == '"');
        let w4 = w3.drop_first();
        assert(w4[0] == '\'');
        assert(w4.drop_first() =~= t);
        assert(sh_read(w4, QuoteMode::Plain) == sh_read(t, QuoteMode::Single));
        assert(sh_read(w3, QuoteMode::Double) == sh_read(w4, QuoteMode::Plain));
        assert(sh_read(w2, QuoteMode::Double) == prefixed(seq!['\''], sh_read(w3, QuoteMode::Double)));
        assert(sh_read(w1, QuoteMode::Plain) == sh_read(w2, QuoteMode::Double));
        assert(sh_read(w, QuoteMode::Single) == sh_read(w1, QuoteMode::Plain));
    } else {
        assert(w[0] == c);
        assert(w.drop_first() =~= t);
        assert(sh_read(w, QuoteMode::Single) == prefixed(seq![c], sh_read(w.drop_first(), QuoteMode::Single)));
    }
}

proof fn lemma_body_read(s: Seq<char>, t: Seq<char>)
    ensures
        sh_read(posix_body(s) + t, QuoteMode::Single) == prefixed(s, sh_read(t, QuoteMode::Single)),
    decreases s.len(),
{
    if s.len() == 0 {
        assert(posix_body(s) + t =~= t);
        match sh_read(t, QuoteMode::Single) {
            Some(v) => assert(s + v =~= v),
            None => {},
        }
    } else {
        let s1 = s.drop_last();
        let c = s.last();
        assert(posix_body(s) + t =~= posix_body(s1) + (posix_piece(c) + t));
        lemma_body_read(s1, posix_piece(c) + t);
        lemma_piece_read(c, t);
        match sh_read(t, QuoteMode::Single) {
            Some(v) => assert(s1 + (seq![c] + v) =~= s + v),
            None => {},
        }
    }
}

/// Reading back a word quoted for a POSIX shell gives exactly the quoted
/// characters, whatever quotes, blanks or `$` signs they hold.
pub proof fn law_posix_quote_reads_back(s: Seq<char>)
    ensures
        sh_read(posix_quoted(s), QuoteMode::Plain) == Some(s),
{
    let w = posix_quoted(s);
    assert(w[0] == '\'');
    assert(w.drop_first() =~= posix_body(s) + seq!['\'']);
    lemma_body_read(s, seq!['\'']);
    let q = seq!['\''];
    assert(q[0] == '\'');
    assert(q.drop_first() =~= Seq::<char>::empty());
    assert(sh_read(Seq::<char>::empty(), QuoteMode::Plain) == Some(Seq::<char>::empty()));
    assert(sh_read(q, QuoteMode::Single) == sh_read(q.drop_first(), QuoteMode::Plain));
    assert(sh_read(w, QuoteMode::Plain) == sh_read(w.drop_first(), QuoteMode::Single));
    assert(s + Seq::<char>::empty() =~= s);
}

} // verus!
