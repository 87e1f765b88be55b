//! Where a request line holds the temperature and the relative humidity.
//!
//! The line is cut at every space; its second piece is the path. The path is
//! cut at every `/`, and two neighbouring pieces are the measurements.

use vstd::prelude::*;
use crate::error::{ErrorModel, Grammar, RequestError};
use crate::text::{free_of, lemma_find_unique, lemma_piece_first, lemma_piece_later, lemma_piece_whole, nth_piece, piece};

verus! {

/// The two path segments of a request, as they were received.
#[derive(Clone, Debug, PartialEq, Eq)]
pub struct Fields {
    pub t: String,
    pub rh: String,
}

/// The path of a request line: its second piece between spaces.
pub open spec fn path_of(line: Seq<char>) -> Option<Seq<char>> {
    piece(line, ' ', 1)
}

/// The number of the path piece that holds the temperature; the humidity
/// follows it.
pub open spec fn first_field(grammar: Grammar) -> nat {
    match grammar {
        Grammar::Plain => 1,
        Grammar::Dewpoint => 2,
    }
}

/// Whether the grammar admits the line at all: the fixed-prefix grammar asks
/// for `GET /dewpoint/` at its start.
pub open spec fn on_route(grammar: Grammar, line: Seq<char>) -> bool {
    grammar == Grammar::Plain || "GET /dewpoint/"@.is_prefix_of(line)
}

/// The two segments of a line under a grammar, or why there are none.
pub open spec fn located(grammar: Grammar, line: Seq<char>) -> Result<
    (Seq<char>, Seq<char>),
    ErrorModel,
>
    recommends
        path_of(line) is Some,
{
    if !on_route(grammar, line) {
        Err(ErrorModel::WrongRoute)
    } else {
        let path = path_of(line).unwrap();
        let t = piece(path, '/', first_field(grammar));
        let rh = piece(path, '/', first_field(grammar) + 1);
        if t is Some && rh is Some {
            Ok((t.unwrap(), rh.unwrap()))
        } else {
            Err(ErrorModel::MissingField { grammar })
        }
    }
}

/// A line that starts with `GET /dewpoint/` has a path.
pub proof fn lemma_route_has_path(line: Seq<char>)
    requires
        "GET /dewpoint/"@.is_prefix_of(line),
    ensures
        path_of(line) is Some,
{
    reveal_strlit("GET /dewpoint/");
    let route = "GET /dewpoint/"@;
    assert(route.len() == 14);
    assert(line.subrange(0, 14) =~= route);
    assert forall|j: int| 0 <= j < 14 implies line[j] == route[j] by {
        assert(line.subrange(0, 14)[j] == line[j]);
    }
    lemma_find_unique(line, ' ', 3);
    assert(piece(line.skip(4), ' ', 0) is Some);
}

/// Tells whether the line has a path.
pub fn has_path(line: &str) -> (r: bool)
    ensures
        r == path_of(line@) is Some,
{
    nth_piece(line, ' ', 1).is_some()
}

/// Tells whether `text` starts with `prefix`.
pub fn starts_with(text: &str, prefix: &str) -> (r: bool)
    ensures
        r == prefix@.is_prefix_of(text@),
{
    let n: usize = prefix.unicode_len();
    if n > text.unicode_len() {
        return false;
    }
    let mut i: usize = 0;
    while i < n
        invariant
            i <= n,
            n == prefix@.len(),
            n <= text@.len(),
            forall|j: int| 0 <= j < i ==> text@[j] == prefix@[j],
        decreases n - i,
    {
        if text.get_char(i) != prefix.get_char(i) {
            proof {
                assert(text@.subrange(0, n as int)[i as int] == text@[i as int]);
            }
            return false;
        }
        i = i + 1;
    }
    proof {
        assert(prefix@ =~= text@.subrange(0, n as int));
    }
    true
}

/// Finds the two measurements of a request line under a grammar.
pub fn locate(grammar: Grammar, line: &str) -> (r: Result<Fields, RequestError>)
    requires
        grammar == Grammar::Plain ==> path_of(line@) is Some,
    ensures
        r is Ok <==> located(grammar, line@) is Ok,
        r matches Ok(fields) ==> Ok::<(Seq<char>, Seq<char>), ErrorModel>((fields.t@, fields.rh@))
            == located(grammar, line@),
        r matches Err(e) ==> Err::<(Seq<char>, Seq<char>), ErrorModel>(e@) == located(
            grammar,
            line@,
        ),
{
    let first: usize = match grammar {
        Grammar::Plain => 1,
        Grammar::Dewpoint => {
            if !starts_with(line, "GET /dewpoint/") {
                return Err(RequestError::WrongRoute);
            }
            proof {
                lemma_route_has_path(line@);
            }
            2
        },
    };
    let path = match nth_piece(line, ' ', 1) {
        Some(path) => path,
        None => {
            return Err(RequestError::MissingField { grammar });
        },
    };
    let t = match nth_piece(path.as_str(), '/', first) {
        Some(t) => t,
        None => {
            return Err(RequestError::MissingField { grammar });
        },
    };
    let rh = match nth_piece(path.as_str(), '/', first + 1) {
        Some(rh) => rh,
        None => {
            return Err(RequestError::MissingField { grammar });
        },
    };
    Ok(Fields { t, rh })
}

/// The path `/` `t` `/` `rh` has `t` as piece 1 and `rh` as piece 2.
proof fn lemma_path_segments(t: Seq<char>, rh: Seq<char>)
    requires
        free_of(t, '/'),
        free_of(rh, '/'),
    ensures
        piece(seq!['/'] + t + seq!['/'] + rh, '/', 1) == Some(t),
        piece(seq!['/'] + t + seq!['/'] + rh, '/', 2) == Some(rh),
{
    let path = seq!['/'] + t + seq!['/'] + rh;
    let tail = t + seq!['/'] + rh;
    assert(path =~= Seq::<char>::empty() + seq!['/'] + tail);
    lemma_piece_later(Seq::<char>::empty(), '/', tail, 0);
    lemma_piece_later(Seq::<char>::empty(), '/', tail, 1);
    lemma_piece_first(t, '/', rh);
    lemma_piece_later(t, '/', rh, 0);
    lemma_piece_whole(rh, '/');
}

/// A request line written from two segments is read back as those segments:
/// under the plain grammar, `GET /{t}/{rh} HTTP/1.1` holds `t` and `rh`,
/// whatever they are, as long as neither holds a space or a `/`.
pub proof fn lemma_plain_round_trip(t: Seq<char>, rh: Seq<char>)
    requires
        free_of(t, ' '),
        free_of(t, '/'),
        free_of(rh, ' '),
        free_of(rh, '/'),
    ensures
        located(Grammar::Plain, "GET /"@ + t + "/"@ + rh + " HTTP/1.1"@) == Ok::<
            (Seq<char>, Seq<char>),
            ErrorModel,
        >((t, rh)),
{
    reveal_strlit("GET /");
    reveal_strlit("/");
    reveal_strlit(" HTTP/1.1");
    let line = "GET /"@ + t + "/"@ + rh + " HTTP/1.1"@;
    let method = seq!['G', 'E', 'T'];
    let path = seq!['/'] + t + seq!['/'] + rh;
    let version = " HTTP/1.1"@.skip(1);
    assert(line =~= method + seq![' '] + (path + seq![' '] + version));
    lemma_piece_later(method, ' ', path + seq![' '] + version, 0);
    lemma_piece_first(path, ' ', version);
    lemma_path_segments(t, rh);
}

/// A request line written from two segments is read back as those segments:
/// under the fixed-prefix grammar, `GET /dewpoint/{t}/{rh} HTTP/1.1` holds `t`
/// and `rh`, whatever they are, as long as neither holds a space or a `/`.
pub proof fn lemma_dewpoint_round_trip(t: Seq<char>, rh: Seq<char>)
    requires
        free_of(t, ' '),
        free_of(t, '/'),
        free_of(rh, ' '),
        free_of(rh, '/'),
    ensures
        located(Grammar::Dewpoint, "GET /dewpoint/"@ + t + "/"@ + rh + " HTTP/1.1"@) == Ok::<
            (Seq<char>, Seq<char>),
            ErrorModel,
        >((t, rh)),
{
    reveal_strlit("GET /dewpoint/");
    reveal_strlit("/");
    reveal_strlit(" HTTP/1.1");
    let route = "GET /dewpoint/"@;
    let line = route + t + "/"@ + rh + " HTTP/1.1"@;
    assert(route =~= line.subrange(0, route.len() as int));
    let method = seq!['G', 'E', 'T'];
    let name = route.subrange(5, 13);
    let segments = seq!['/'] + t + seq!['/'] + rh;
    let path = seq!['/'] + name + segments;
    let version = " HTTP/1.1"@.skip(1);
    assert(line =~= method + seq![' '] + (path + seq![' '] + version));
    lemma_piece_later(method, ' ', path + seq![' '] + version, 0);
    lemma_piece_first(path, ' ', version);
    assert(path =~= Seq::<char>::empty() + seq!['/'] + (name + segments));
    lemma_piece_later(Seq::<char>::empty(), '/', name + segments, 1);
    lemma_piece_later(Seq::<char>::empty(), '/', name + segments, 2);
    let tail = t + seq!['/'] + rh;
    assert(name + segments =~= name + seq!['/'] + tail);
    lemma_piece_later(name, '/', tail, 0);
    lemma_piece_later(name, '/', tail, 1);
    lemma_piece_first(t, '/', rh);
    lemma_piece_later(t, '/', rh, 0);
    lemma_piece_whole(rh, '/');
}

} // verus!
