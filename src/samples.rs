//! Tokenising raw column values into numeric samples.
use vstd::prelude::*;
use vstd::string::*;

verus! {

/// A delimiter between the numbers of one raw value.
pub open spec fn is_delim(c: char) -> bool {
    c == ',' || c == ' '
}

/// Scans `s` left to right: the finished tokens and the token still open.
pub open spec fn scan(s: Seq<char>) -> (Seq<Seq<char>>, Seq<char>)
    decreases s.len(),
{
    if s.len() == 0 {
        (Seq::empty(), Seq::empty())
    } else {
        let (done, cur) = scan(s.drop_last());
        if is_delim(s.last()) {
            if cur.len() > 0 {
                (done.push(cur), Seq::empty())
            } else {
                (done, Seq::empty())
            }
        } else {
            (done, cur.push(s.last()))
        }
    }
}

/// The non-empty tokens of `s` between commas and spaces, in order.
pub open spec fn sample_tokens(s: Seq<char>) -> Seq<Seq<char>> {
    let (done, cur) = scan(s);
    if cur.len() > 0 {
        done.push(cur)
    } else {
        done
    }
}

pub open spec fn strings_view(v: Seq<String>) -> Seq<Seq<char>> {
    v.map_values(|t: String| t@)
}

/// Splits a raw value on commas and spaces and drops the empty pieces.
pub fn split_samples(raw: &str) -> (r: Vec<String>)
    ensures
        strings_view(r@) == sample_tokens(raw@),
{
    let n = raw.unicode_len();
    let mut tokens: Vec<String> = Vec::new();
    let mut start: usize = 0;
    let mut i: usize = 0;
    while i < n
        invariant
            n == raw@.len(),
            start <= i <= n,
            scan(raw@.take(i as int)) == (strings_view(tokens@), raw@.subrange(start as int, i as int)),
        decreases n - i,
    {
        let c = raw.get_char(i);
        proof {
            assert(raw@.take(i as int + 1).drop_last() == raw@.take(i as int));
            assert(raw@.take(i as int + 1).last() == c);
        }
        if c == ',' || c == ' ' {
            if start < i {
                let t = raw.substring_char(start, i);
                let s = t.to_owned();
                let ghost prev = tokens@;
                tokens.push(s);
                proof {
                    assert(strings_view(tokens@) =~= strings_view(prev).push(s@));
                }
            }
            start = i + 1;
        } else {
            proof {
                assert(raw@.subrange(start as int, i as int + 1)
                    == raw@.subrange(start as int, i as int).push(c));
            }
        }
        i = i + 1;
    }
    if start < n {
        let t = raw.substring_char(start, n);
        let s = t.to_owned();
        let ghost prev = tokens@;
        tokens.push(s);
        proof {
            assert(strings_view(tokens@) =~= strings_view(prev).push(s@));
        }
    }
    proof {
        assert(raw@.take(n as int) == raw@);
        assert(strings_view(tokens@) == sample_tokens(raw@));
    }
    tokens
}

/// A token of a raw value that is not a number.
pub struct ParseError {
    /// The offending token.
    pub token: String,
    /// What the number conversion reported.
    pub reason: String,
}

/// The text logged for a token that is not a number.
pub open spec fn parse_error_text(token: Seq<char>, reason: Seq<char>) -> Seq<char> {
    "cannot parse \""@ + token + "\": "@ + reason
}

impl ParseError {
    pub fn message(&self) -> (r: String)
        ensures
            r@ == parse_error_text(self.token@, self.reason@),
    {
        let mut m = String::from_str("cannot parse \"");
        m.append(self.token.as_str());
        m.append("\": ");
        m.append(self.reason.as_str());
        m
    }
}

/// The samples of a column whose every token converted.
pub open spec fn converted(parsed: Seq<Result<u64, String>>) -> Seq<u64> {
    Seq::new(parsed.len(), |i: int| parsed[i]->Ok_0)
}

/// Index `i` holds the first token that did not convert.
pub open spec fn is_first_failure(parsed: Seq<Result<u64, String>>, i: int) -> bool {
    &&& 0 <= i < parsed.len()
    &&& parsed[i] is Err
    &&& forall|j: int| 0 <= j < i ==> parsed[j] is Ok
}

/// Gathers the converted tokens of one raw value, strictly: one token that did
/// not convert rejects the whole value, and the first such token is reported.
pub fn collect_samples(tokens: &Vec<String>, parsed: &Vec<Result<u64, String>>) -> (r: Result<
    Vec<u64>,
    ParseError,
>)
    requires
        tokens@.len() == parsed@.len(),
    ensures
        r is Ok <==> (forall|i: int| 0 <= i < parsed@.len() ==> parsed@[i] is Ok),
        r is Ok ==> r->Ok_0@ == converted(parsed@),
        r is Err ==> exists|i: int|
            #![auto]
            is_first_failure(parsed@, i) && r->Err_0.token@ == tokens@[i]@ && r->Err_0.reason@
                == parsed@[i]->Err_0@,
{
    let mut out: Vec<u64> = Vec::new();
    let mut i: usize = 0;
    while i < parsed.len()
        invariant
            i <= parsed@.len(),
            tokens@.len() == parsed@.len(),
            forall|j: int| 0 <= j < i ==> parsed@[j] is Ok,
            out@ == converted(parsed@.take(i as int)),
        decreases parsed@.len() - i,
    {
        match &parsed[i] {
            Ok(v) => {
                out.push(*v);
                assert(out@ =~= converted(parsed@.take(i as int + 1)));
            },
            Err(e) => {
                let token = tokens[i].clone();
                let reason = e.clone();
                assert(is_first_failure(parsed@, i as int));
                return Err(ParseError { token, reason });
            },
        }
        i = i + 1;
    }
    assert(parsed@.take(i as int) =~= parsed@);
    Ok(out)
}

} // verus!
