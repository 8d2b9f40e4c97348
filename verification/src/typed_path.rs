//! Type-safe route paths.
//!
//! A route type carries the values backing the captures of a declared
//! pattern; `TypedPath` gives it rendering to a path string, parsing of
//! the rendered string into a structured URI, and augmentation with a
//! form-urlencoded query string. The query augmentation always ends the
//! base path with `?` (even for an empty query object) and then appends
//! the `key=value` pairs joined by `&`, each side form-urlencoded, in
//! the pair order handed in.

use vstd::prelude::*;

use crate::encoding::encoded_path_byte;
use crate::encoding::encoded_path_bytes;
use crate::encoding::form_component_encoded;
use crate::encoding::form_encode_component;
use crate::encoding::hex_upper_digit;
use crate::encoding::path_segment_escapes;
use crate::encoding::push_char;
use crate::errors::EncodingFailure;

verus! {

/// A query object, already serialized field by field into ordered
/// `key=value` string pairs (declaration order of the object's fields).
#[derive(Debug, Clone)]
pub struct QueryParams {
    /// The pairs, in serialization order.
    pub pairs: Vec<(String, String)>,
}

impl QueryParams {
    /// An empty query object: no fields, no pairs.
    pub fn new() -> (r: QueryParams)
        ensures
            r.pairs@ == Seq::<(String, String)>::empty(),
    {
        QueryParams { pairs: Vec::new() }
    }

    /// Appends one serialized field.
    pub fn push_pair(&mut self, key: String, value: String)
        ensures
            final (self).pairs@ == old(self).pairs@.push((key, value)),
    {
        self.pairs.push((key, value));
    }
}

/// What one `key=value` pair renders to, both sides form-urlencoded.
pub open spec fn pair_encoded(k: Seq<char>, v: Seq<char>) -> Seq<char> {
    form_component_encoded(k) + seq!['='] + form_component_encoded(v)
}

/// What an ordered pair list renders to: the encoded pairs joined by `&`.
pub open spec fn query_pairs_encoded(pairs: Seq<(String, String)>) -> Seq<char>
    decreases pairs.len(),
{
    if pairs.len() == 0 {
        Seq::<char>::empty()
    } else if pairs.len() == 1 {
        pair_encoded(pairs[0].0@, pairs[0].1@)
    } else {
        pair_encoded(pairs[0].0@, pairs[0].1@) + seq!['&'] + query_pairs_encoded(
            pairs.drop_first(),
        )
    }
}

/// What a path with query params renders to: the base path, a `?` if the
/// base does not already contain one, then the encoded pairs.
pub open spec fn with_query_rendered(base: Seq<char>, pairs: Seq<(String, String)>) -> Seq<
    char,
> {
    (if base.contains('?') {
        base
    } else {
        base + seq!['?']
    }) + query_pairs_encoded(pairs)
}

/// Appending one pair extends the rendered query, preceded by `&` unless
/// it is the first pair.
proof fn lemma_query_pairs_push(pairs: Seq<(String, String)>, p: (String, String))
    ensures
        pairs.len() == 0 ==> query_pairs_encoded(pairs + seq![p]) =~= pair_encoded(p.0@, p.1@),
        pairs.len() > 0 ==> query_pairs_encoded(pairs + seq![p]) =~= query_pairs_encoded(pairs)
            + seq!['&'] + pair_encoded(p.0@, p.1@),
    decreases pairs.len(),
{
    let t = pairs + seq![p];
    if pairs.len() == 0 {
        assert(t =~= seq![p]);
    } else {
        assert(t[0] == pairs[0]);
        assert(t.drop_first() =~= pairs.drop_first() + seq![p]);
        lemma_query_pairs_push(pairs.drop_first(), p);
        assert(t.len() >= 2);
        assert(query_pairs_encoded(t) == pair_encoded(t[0].0@, t[0].1@) + seq!['&']
            + query_pairs_encoded(t.drop_first()));
        if pairs.len() == 1 {
            assert(query_pairs_encoded(pairs) == pair_encoded(pairs[0].0@, pairs[0].1@));
            assert(query_pairs_encoded(t) =~= query_pairs_encoded(pairs) + seq!['&']
                + pair_encoded(p.0@, p.1@));
        } else {
            assert(query_pairs_encoded(pairs) == pair_encoded(pairs[0].0@, pairs[0].1@)
                + seq!['&'] + query_pairs_encoded(pairs.drop_first()));
            assert(query_pairs_encoded(t) =~= query_pairs_encoded(pairs) + seq!['&']
                + pair_encoded(p.0@, p.1@));
        }
    }
}

/// Renders an ordered pair list as a form-urlencoded query string.
pub fn render_query(pairs: &Vec<(String, String)>) -> (r: String)
    ensures
        r@ == query_pairs_encoded(pairs@),
{
    let mut out = String::new();
    let mut i: usize = 0;
    while i < pairs.len()
        invariant
            i <= pairs@.len(),
            out@ == query_pairs_encoded(pairs@.take(i as int)),
        decreases pairs@.len() - i,
    {
        proof {
            assert(pairs@.take(i + 1) =~= pairs@.take(i as int) + seq![pairs@[i as int]]);
            lemma_query_pairs_push(pairs@.take(i as int), pairs@[i as int]);
        }
        if i > 0 {
            push_char(&mut out, '&');
        }
        out.append(form_encode_component(pairs[i].0.as_str()).as_str());
        push_char(&mut out, '=');
        out.append(form_encode_component(pairs[i].1.as_str()).as_str());
        i += 1;
    }
    proof {
        assert(pairs@.take(pairs@.len() as int) =~= pairs@);
    }
    out
}

/// Whether a rendered path already contains a question mark.
fn contains_question_mark(s: &str) -> (r: bool)
    ensures
        r == s@.contains('?'),
{
    let n = s.unicode_len();
    let mut i: usize = 0;
    while i < n
        invariant
            i <= n,
            n == s@.len(),
            forall|j: int| 0 <= j < i ==> s@[j] != '?',
        decreases n - i,
    {
        if s.get_char(i) == '?' {
            return true;
        }
        i += 1;
    }
    false
}

/// Names whether the URI parser of the HTTP crate accepts a given string;
/// acceptance depends on the string alone.
pub uninterp spec fn uri_accepts(s: Seq<char>) -> bool;

/// A character the URI parser accepts in the path part of an origin-form
/// reference (read off the parser's byte class table).
pub open spec fn uri_path_char_ok(c: char) -> bool {
    let n = c as u32;
    n == 0x21 || n == 0x22 || (0x24 <= n && n <= 0x3b) || n == 0x3d || (0x40 <= n && n <= 0x5f)
        || (0x61 <= n && n <= 0x7a) || n == 0x7b || n == 0x7c || n == 0x7d || n == 0x7e
}

/// A character the URI parser accepts in the query part (read off the
/// parser's byte class table).
pub open spec fn uri_query_char_ok(c: char) -> bool {
    let n = c as u32;
    n == 0x21 || (0x24 <= n && n <= 0x3b) || n == 0x3d || (0x3f <= n && n <= 0x7e)
}

/// A string certainly accepted as an origin-form URI reference: it starts
/// with a slash, stays within the parser's length bound, holds only
/// path-safe characters up to the first `?`, and only query-safe
/// characters after it.
pub open spec fn uri_surely_accepted(s: Seq<char>) -> bool {
    &&& 1 <= s.len() <= 65534
    &&& s[0] == '/'
    &&& forall|i: int|
        0 <= i < s.len() ==> if exists|j: int| 0 <= j < i && s[j] == '?' {
            uri_query_char_ok(s[i])
        } else {
            s[i] == '?' || uri_path_char_ok(s[i])
        }
}

/// Every character the form encoder emits is accepted in the query part
/// of a URI.
proof fn lemma_encoded_form_is_query_safe(bs: Seq<u8>)
    ensures
        forall|i: int|
            0 <= i < crate::encoding::encoded_form_bytes(bs).len() ==> uri_query_char_ok(
                #[trigger] crate::encoding::encoded_form_bytes(bs)[i],
            ),
    decreases bs.len(),
{
    if bs.len() == 0 {
    } else {
        lemma_encoded_form_is_query_safe(bs.drop_first());
        let u = crate::encoding::encoded_form_byte(bs[0]);
        assert forall|i: int| 0 <= i < u.len() implies uri_query_char_ok(u[i]) by {
            if bs[0] == 0x20 {
                assert(u[0] == '+');
            } else if crate::encoding::form_byte_unchanged(bs[0]) {
                assert(u[0] == bs[0] as char);
            } else {
                assert(u[0] == '%');
                assert(u[1] == hex_upper_digit(bs[0] / 16));
                assert(u[2] == hex_upper_digit(bs[0] % 16));
                assert(bs[0] / 16 < 16);
                assert(bs[0] % 16 < 16);
            }
        }
        assert(crate::encoding::encoded_form_bytes(bs) == u + crate::encoding::encoded_form_bytes(
            bs.drop_first(),
        ));
        assert forall|i: int|
            0 <= i < crate::encoding::encoded_form_bytes(bs).len() implies uri_query_char_ok(
            #[trigger] crate::encoding::encoded_form_bytes(bs)[i],
        ) by {
            if i < u.len() {
                assert(crate::encoding::encoded_form_bytes(bs)[i] == u[i]);
            } else {
                assert(crate::encoding::encoded_form_bytes(bs)[i]
                    == crate::encoding::encoded_form_bytes(bs.drop_first())[i - u.len()]);
            }
        }
    }
}

/// Every character a rendered query string holds is accepted in the
/// query part of a URI: the encoded pairs, `=` and the `&` joins.
proof fn lemma_query_pairs_query_safe(pairs: Seq<(String, String)>)
    ensures
        forall|i: int|
            0 <= i < query_pairs_encoded(pairs).len() ==> uri_query_char_ok(
                #[trigger] query_pairs_encoded(pairs)[i],
            ),
    decreases pairs.len(),
{
    if pairs.len() == 0 {
    } else {
        let head = pair_encoded(pairs[0].0@, pairs[0].1@);
        lemma_encoded_form_is_query_safe(vstd::utf8::encode_utf8(pairs[0].0@));
        lemma_encoded_form_is_query_safe(vstd::utf8::encode_utf8(pairs[0].1@));
        assert forall|i: int| 0 <= i < head.len() implies uri_query_char_ok(head[i]) by {
            let k = form_component_encoded(pairs[0].0@);
            let v = form_component_encoded(pairs[0].1@);
            if i < k.len() {
                assert(head[i] == k[i]);
            } else if i == k.len() {
                assert(head[i] == '=');
            } else {
                assert(head[i] == v[i - k.len() - 1]);
            }
        }
        if pairs.len() == 1 {
        } else {
            lemma_query_pairs_query_safe(pairs.drop_first());
            let rest = query_pairs_encoded(pairs.drop_first());
            assert(query_pairs_encoded(pairs) == head + seq!['&'] + rest);
            assert forall|i: int|
                0 <= i < query_pairs_encoded(pairs).len() implies uri_query_char_ok(
                #[trigger] query_pairs_encoded(pairs)[i],
            ) by {
                if i < head.len() {
                    assert(query_pairs_encoded(pairs)[i] == head[i]);
                } else if i == head.len() {
                    assert(query_pairs_encoded(pairs)[i] == '&');
                } else {
                    assert(query_pairs_encoded(pairs)[i] == rest[i - head.len() - 1]);
                }
            }
        }
    }
}

/// Augmenting a certainly accepted base path with query params keeps it
/// certainly accepted, as long as the result stays within the parser's
/// length bound: `to_uri` on a query-augmented path is owed success too.
pub proof fn lemma_with_query_uri_accepted(base: Seq<char>, pairs: Seq<(String, String)>)
    requires
        uri_surely_accepted(base),
        with_query_rendered(base, pairs).len() <= 65534,
    ensures
        uri_surely_accepted(with_query_rendered(base, pairs)),
{
    lemma_query_pairs_query_safe(pairs);
    let q = query_pairs_encoded(pairs);
    let stem = if base.contains('?') {
        base
    } else {
        base + seq!['?']
    };
    let s = with_query_rendered(base, pairs);
    assert(s == stem + q);
    assert(s[0] == base[0]);
    assert forall|i: int|
        0 <= i < s.len() implies (if exists|j: int| 0 <= j < i && s[j] == '?' {
        uri_query_char_ok(s[i])
    } else {
        s[i] == '?' || uri_path_char_ok(s[i])
    }) by {
        if i < base.len() {
            assert(s[i] == base[i]);
            assert forall|j: int| 0 <= j < i implies s[j] == base[j] by {}
            if exists|j: int| 0 <= j < i && s[j] == '?' {
                let j = choose|j: int| 0 <= j < i && s[j] == '?';
                assert(base[j] == '?');
                assert(uri_query_char_ok(base[i]));
            } else {
                if exists|j: int| 0 <= j < i && base[j] == '?' {
                    let j = choose|j: int| 0 <= j < i && base[j] == '?';
                    assert(s[j] == '?');
                    assert(false);
                }
                assert(base[i] == '?' || uri_path_char_ok(base[i]));
            }
        } else if i < stem.len() {
            assert(!base.contains('?'));
            assert(i == base.len());
            assert(s[i] == '?');
            if exists|j: int| 0 <= j < i && s[j] == '?' {
                let j = choose|j: int| 0 <= j < i && s[j] == '?';
                assert(base[j] == '?');
                assert(base.contains('?'));
            }
        } else {
            assert(s[i] == q[i - stem.len()]);
            assert(uri_query_char_ok(s[i]));
            if base.contains('?') {
                let j = choose|j: int| 0 <= j < base.len() && base[j] == '?';
                assert(s[j] == '?');
                assert(0 <= j < i);
            } else {
                assert(s[base.len() as int] == '?');
                assert(base.len() < i);
            }
        }
    }
}

/// Every character the path-segment encoder emits is accepted in the
/// path part of a URI, and none is a question mark: escaping under the
/// path-segment policy makes any captured value safe to substitute into
/// a path segment.
pub proof fn lemma_encoded_path_is_uri_safe(bs: Seq<u8>)
    ensures
        forall|i: int|
            0 <= i < encoded_path_bytes(bs).len() ==> uri_path_char_ok(
                #[trigger] encoded_path_bytes(bs)[i],
            ) && encoded_path_bytes(bs)[i] != '?',
    decreases bs.len(),
{
    if bs.len() == 0 {
    } else {
        lemma_encoded_path_is_uri_safe(bs.drop_first());
        let u = encoded_path_byte(bs[0]);
        assert forall|i: int| 0 <= i < u.len() implies uri_path_char_ok(u[i]) && u[i] != '?' by {
            if path_segment_escapes(bs[0]) {
                assert(u[0] == '%');
                assert(u[1] == hex_upper_digit(bs[0] / 16));
                assert(u[2] == hex_upper_digit(bs[0] % 16));
                assert(bs[0] / 16 < 16);
                assert(bs[0] % 16 < 16);
            } else {
                assert(u[0] == bs[0] as char);
                assert(0x21 <= bs[0] < 0x7f);
            }
        }
        assert(encoded_path_bytes(bs) == u + encoded_path_bytes(bs.drop_first()));
        assert forall|i: int| 0 <= i < encoded_path_bytes(bs).len() implies uri_path_char_ok(
            #[trigger] encoded_path_bytes(bs)[i],
        ) && encoded_path_bytes(bs)[i] != '?' by {
            if i < u.len() {
                assert(encoded_path_bytes(bs)[i] == u[i]);
            } else {
                assert(encoded_path_bytes(bs)[i] == encoded_path_bytes(bs.drop_first())[i
                    - u.len()]);
            }
        }
    }
}

/// Relies on the HTTP crate's `Uri` string parsing (`str::parse::<Uri>`):
/// whether a string parses depends on the string alone, and an
/// origin-form reference within the parser's length bound, starting with
/// a slash, whose characters up to the first `?` are in the parser's path
/// byte class and after it in its query byte class, is accepted.
#[verifier::external_body]
fn parse_uri(s: &str) -> (r: Option<http::Uri>)
    ensures
        r is Some <==> uri_accepts(s@),
        uri_surely_accepted(s@) ==> r is Some,
{
    match s.parse::<http::Uri>() {
        Ok(u) => Some(u),
        Err(_) => None,
    }
}

/// Declares the HTTP crate's structured URI type so it can stand in
/// signatures; the library only carries such values through.
#[verifier::external_type_specification]
#[verifier::external_body]
pub struct ExUri(http::Uri);

/// A type-safe route path: a declared pattern, and rendering of the
/// capture values it carries into a path string.
pub trait TypedPath: Sized {
    /// The declared pattern, as a mathematical string.
    spec fn spec_path() -> Seq<char>;

    /// What rendering this value produces.
    spec fn spec_rendered(&self) -> Seq<char>;

    /// The declared pattern with its capture markers, verbatim.
    fn raw_path() -> (r: &'static str)
        ensures
            r@ == Self::spec_path(),
    ;

    /// Renders the path: literal segments verbatim, each capture replaced
    /// by the corresponding field's value escaped under the path-segment
    /// policy.
    fn to_string(&self) -> (r: String)
        ensures
            r@ == self.spec_rendered(),
    ;

    /// Parses the rendered path into a structured URI value. A rendered
    /// path the URI parser does not accept is an unrecoverable encoding
    /// failure, not a domain error.
    fn to_uri(&self) -> (r: Result<http::Uri, EncodingFailure>)
        ensures
            r is Ok <==> uri_accepts(self.spec_rendered()),
            uri_surely_accepted(self.spec_rendered()) ==> r is Ok,
            r is Err ==> r == Result::<http::Uri, EncodingFailure>::Err(
                EncodingFailure::InvalidUri,
            ),
    {
        let rendered = self.to_string();
        match parse_uri(rendered.as_str()) {
            Some(u) => Ok(u),
            None => Err(EncodingFailure::InvalidUri),
        }
    }

    /// Pairs this path with a serialized query object; the pair renders
    /// as the base path, then `?`, then the encoded query pairs.
    fn with_query_params(self, params: QueryParams) -> (r: WithQueryParams<Self>)
        ensures
            r.path == self,
            r.params.pairs@ == params.pairs@,
    {
        WithQueryParams { path: self, params }
    }
}

/// A typed path augmented with a serialized query object.
#[derive(Debug, Clone)]
pub struct WithQueryParams<P> {
    /// The base path.
    pub path: P,
    /// The query object, serialized into ordered pairs.
    pub params: QueryParams,
}

impl<P: TypedPath> TypedPath for WithQueryParams<P> {
    open spec fn spec_path() -> Seq<char> {
        P::spec_path()
    }

    open spec fn spec_rendered(&self) -> Seq<char> {
        with_query_rendered(self.path.spec_rendered(), self.params.pairs@)
    }

    fn raw_path() -> (r: &'static str) {
        P::raw_path()
    }

    fn to_string(&self) -> (r: String) {
        let mut out = self.path.to_string();
        if !contains_question_mark(out.as_str()) {
            push_char(&mut out, '?');
        }
        let query = render_query(&self.params.pairs);
        out.append(query.as_str());
        out
    }
}

} // verus!
