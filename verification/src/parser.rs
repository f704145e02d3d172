use vstd::prelude::*;
use vstd::string::StrSliceExecFns;
use vstd::string::StringExecFns;

verus! {

/// A character that separates tokens: a space, a tab, or a line terminator.
pub open spec fn is_space(c: char) -> bool {
    c == ' ' || c == '\t' || c == '\n' || c == '\r'
}

/// Executable counterpart of [`is_space`].
pub fn is_space_char(c: char) -> (r: bool)
    ensures
        r == is_space(c),
{
    c == ' ' || c == '\t' || c == '\n' || c == '\r'
}

/// The whitespace-separated tokens of `s`: the maximal runs of non-space
/// characters, in the order in which they occur.
pub open spec fn tokenize(s: Seq<char>) -> Seq<Seq<char>>
    decreases s.len(),
{
    if s.len() == 0 {
        Seq::empty()
    } else {
        let rest = tokenize(s.drop_last());
        let c = s.last();
        if is_space(c) {
            rest
        } else if s.len() >= 2 && !is_space(s[s.len() - 2]) {
            rest.update(rest.len() - 1, rest.last().push(c))
        } else {
            rest.push(seq![c])
        }
    }
}

/// The views of a sequence of owned strings.
pub open spec fn views_of(ts: Seq<String>) -> Seq<Seq<char>> {
    ts.map_values(|t: String| t@)
}

/// A string that ends in a non-space character tokenises to at least one
/// token, and its last token is not empty.
pub proof fn lemma_tokenize_trailing(s: Seq<char>)
    requires
        s.len() > 0,
        !is_space(s.last()),
    ensures
        tokenize(s).len() >= 1,
        tokenize(s).last().len() >= 1,
    decreases s.len(),
{
    if s.len() >= 2 && !is_space(s[s.len() - 2]) {
        lemma_tokenize_trailing(s.drop_last());
    }
}

/// Splits a line into its whitespace-separated tokens.
pub fn tokens(line: &str) -> (toks: Vec<String>)
    ensures
        views_of(toks@) == tokenize(line@),
{
    let n = line.unicode_len();
    let mut toks: Vec<String> = Vec::new();
    let mut i: usize = 0;
    let mut prev_space = true;
    while i < n
        invariant
            i <= n,
            n == line@.len(),
            prev_space == (i == 0 || is_space(line@[i as int - 1])),
            views_of(toks@) == tokenize(line@.subrange(0, i as int)),
        decreases n - i,
    {
        let ghost pre = line@.subrange(0, i as int);
        let ghost cur = line@.subrange(0, i as int + 1);
        proof {
            assert(cur.drop_last() =~= pre);
            assert(cur.last() == line@[i as int]);
        }
        let c = line.get_char(i);
        if is_space_char(c) {
            assert(views_of(toks@) =~= tokenize(cur));
            prev_space = true;
        } else if !prev_space {
            proof {
                lemma_tokenize_trailing(pre);
            }
            let piece = line.substring_char(i, i + 1);
            assert(piece@ =~= seq![line@[i as int]]);
            let last = toks.pop().unwrap();
            toks.push(last.concat(piece));
            proof {
                let rest = tokenize(pre);
                assert(toks@[toks@.len() - 1]@ == rest.last() + piece@);
                assert(rest.last().push(cur.last()) =~= rest.last() + piece@);
                assert(views_of(toks@) =~= rest.update(rest.len() - 1, rest.last().push(cur.last())));
            }
            prev_space = false;
        } else {
            let piece = line.substring_char(i, i + 1);
            assert(piece@ =~= seq![line@[i as int]]);
            toks.push(piece.to_owned());
            assert(views_of(toks@) =~= tokenize(pre).push(seq![cur.last()]));
            prev_space = false;
        }
        i = i + 1;
    }
    proof {
        assert(line@.subrange(0, n as int) =~= line@);
    }
    toks
}

/// Every token is a non-empty run of characters.
pub proof fn lemma_tokens_nonempty(s: Seq<char>)
    ensures
        forall|i: int| 0 <= i < tokenize(s).len() ==> tokenize(s)[i].len() >= 1,
    decreases s.len(),
{
    if s.len() > 0 {
        lemma_tokens_nonempty(s.drop_last());
        let rest = tokenize(s.drop_last());
        let c = s.last();
        if is_space(c) {
        } else if s.len() >= 2 && !is_space(s[s.len() - 2]) {
            lemma_tokenize_trailing(s.drop_last());
            assert forall|i: int| 0 <= i < tokenize(s).len() implies tokenize(s)[i].len() >= 1 by {
                if i != rest.len() - 1 {
                    assert(tokenize(s)[i] == rest[i]);
                }
            }
        } else {
            assert(tokenize(s).last().len() == 1);
        }
    }
}

/// A validated input record pairing an employee name with a department name.
#[derive(Debug, PartialEq, Eq)]
pub struct AddCommand {
    pub employee: String,
    pub department: String,
}

/// The one way a line can be rejected: it does not hold exactly four
/// whitespace-separated tokens.
#[derive(Debug, Clone, Copy, PartialEq, Eq)]
pub enum ParseError {
    BadFormat,
}

/// Turns one raw input line into an `AddCommand`.
///
/// The line is accepted exactly when it tokenises to four tokens
/// `<verb> <employee> <preposition> <department>`; the verb and the
/// preposition are accepted positionally and do not influence the result.
pub fn parse(line: &str) -> (r: Result<AddCommand, ParseError>)
    ensures
        r is Ok <==> tokenize(line@).len() == 4,
        r matches Ok(cmd) ==> cmd.employee@ == tokenize(line@)[1] && cmd.department@ == tokenize(
            line@,
        )[3],
        r matches Err(e) ==> e == ParseError::BadFormat,
{
    let mut toks = tokens(line);
    if toks.len() == 4 {
        let employee = toks.remove(1);
        let department = toks.remove(2);
        Ok(AddCommand { employee, department })
    } else {
        Err(ParseError::BadFormat)
    }
}

} // verus!
