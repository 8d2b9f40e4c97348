//! The application's declared routes.
//!
//! Each route type carries the values backing the captures of its
//! declared pattern, and renders exactly as the pattern dictates: literal
//! segments verbatim, captures replaced by the escaped field value. A
//! proof function per type ties the declared pattern to the fields: the
//! pattern's capture names correspond one to one with the fields, and
//! the hand-written rendering agrees with the generic rendering of the
//! parsed pattern. A mismatch is therefore rejected when this crate is
//! verified, before the program can run.

use vstd::prelude::*;

use crate::encoding::path_segment_encoded;
use crate::pattern::binding_value;
use crate::pattern::capture_names;
use crate::pattern::pattern_captures;
use crate::pattern::pattern_segments;
use crate::pattern::rendered_segment;
use crate::pattern::rendered_segments;
use crate::pattern::spec_render_pattern;
use crate::pattern::split_on_slash;
use crate::pattern::SpecSegment;
use crate::typed_path::lemma_encoded_path_is_uri_safe;
use crate::typed_path::uri_path_char_ok;
use crate::typed_path::uri_surely_accepted;
use crate::typed_path::TypedPath;

verus! {

/// The root route, pattern `/`: no captures.
#[derive(Debug, Clone, PartialEq, Eq, Structural)]
pub struct Home;

/// The help page route, pattern `/help`: no captures.
#[derive(Debug, Clone, PartialEq, Eq, Structural)]
pub struct Help;

/// A route with one capture, pattern `/some/:parameter`.
#[derive(Debug, Clone, PartialEq, Eq)]
pub struct SomeParameterPath {
    /// The value substituted for the `:parameter` capture.
    pub parameter: String,
}

impl Home {
    /// Constructs the route value.
    pub fn new() -> (r: Home)
        ensures
            r == Home,
    {
        Home
    }
}

impl Help {
    /// Constructs the route value.
    pub fn new() -> (r: Help)
        ensures
            r == Help,
    {
        Help
    }
}

impl SomeParameterPath {
    /// Constructs the route value from its capture value.
    pub fn new(parameter: String) -> (r: SomeParameterPath)
        ensures
            r.parameter == parameter,
    {
        SomeParameterPath { parameter }
    }
}

impl TypedPath for Home {
    open spec fn spec_path() -> Seq<char> {
        "/"@
    }

    open spec fn spec_rendered(&self) -> Seq<char> {
        "/"@
    }

    fn raw_path() -> (r: &'static str) {
        "/"
    }

    fn to_string(&self) -> (r: String) {
        String::from_str("/")
    }
}

impl TypedPath for Help {
    open spec fn spec_path() -> Seq<char> {
        "/help"@
    }

    open spec fn spec_rendered(&self) -> Seq<char> {
        "/help"@
    }

    fn raw_path() -> (r: &'static str) {
        "/help"
    }

    fn to_string(&self) -> (r: String) {
        String::from_str("/help")
    }
}

impl TypedPath for SomeParameterPath {
    open spec fn spec_path() -> Seq<char> {
        "/some/:parameter"@
    }

    open spec fn spec_rendered(&self) -> Seq<char> {
        "/some/"@ + path_segment_encoded(self.parameter@)
    }

    fn raw_path() -> (r: &'static str) {
        "/some/:parameter"
    }

    fn to_string(&self) -> (r: String) {
        let mut out = String::from_str("/some/");
        let encoded = crate::encoding::encode_path_segment(self.parameter.as_str());
        out.append(encoded.as_str());
        out
    }
}

/// The `/` pattern declares no captures, matching `Home`'s lack of
/// fields, and renders to exactly `/` under the generic pattern
/// rendering, matching `Home`'s hand-written rendering.
pub proof fn lemma_home_matches_pattern(p: Home)
    ensures
        pattern_captures(Home::spec_path()) == Seq::<Seq<char>>::empty(),
        spec_render_pattern(Home::spec_path(), Seq::empty()) == Some(p.spec_rendered()),
{
    reveal_strlit("/");
    assert("/"@ =~= seq!['/']);
    assert(split_on_slash(seq!['/']) =~~= seq![Seq::<char>::empty(), Seq::<char>::empty()]) by {
        reveal_with_fuel(split_on_slash, 3);
        assert(seq!['/'].drop_first() =~= Seq::<char>::empty());
    }
    let segs = seq![
        SpecSegment::Literal(Seq::<char>::empty()),
        SpecSegment::Literal(Seq::<char>::empty()),
    ];
    assert(pattern_segments("/"@) =~~= segs);
    assert(segs.drop_first() =~= seq![SpecSegment::Literal(Seq::<char>::empty())]);
    assert(segs.drop_first().drop_first() =~= Seq::<SpecSegment>::empty());
    assert(capture_names(segs) == capture_names(segs.drop_first()));
    assert(capture_names(segs.drop_first()) == capture_names(segs.drop_first().drop_first()));
    assert(pattern_captures(Home::spec_path()) =~~= Seq::<Seq<char>>::empty());
    let bindings = Seq::<(Seq<char>, Seq<char>)>::empty();
    assert(rendered_segment(segs[0], bindings) == Some(Seq::<char>::empty()));
    assert(rendered_segments(segs.drop_first(), bindings) == Some(Seq::<char>::empty()));
    assert(rendered_segments(segs, bindings) == Some(
        Seq::<char>::empty() + seq!['/'] + Seq::<char>::empty(),
    ));
    assert(Seq::<char>::empty() + seq!['/'] + Seq::<char>::empty() =~= "/"@);
}

/// The `/help` pattern declares no captures, matching `Help`'s lack of
/// fields, and renders to exactly `/help` under the generic pattern
/// rendering, matching `Help`'s hand-written rendering.
pub proof fn lemma_help_matches_pattern(p: Help)
    ensures
        pattern_captures(Help::spec_path()) == Seq::<Seq<char>>::empty(),
        spec_render_pattern(Help::spec_path(), Seq::empty()) == Some(p.spec_rendered()),
{
    reveal_strlit("/help");
    assert("/help"@ =~= seq!['/', 'h', 'e', 'l', 'p']);
    assert(split_on_slash(seq!['/', 'h', 'e', 'l', 'p']) =~~= seq![
        Seq::<char>::empty(),
        seq!['h', 'e', 'l', 'p'],
    ]) by {
        reveal_with_fuel(split_on_slash, 7);
    }
    let segs = seq![
        SpecSegment::Literal(Seq::<char>::empty()),
        SpecSegment::Literal(seq!['h', 'e', 'l', 'p']),
    ];
    assert(pattern_segments("/help"@) =~~= segs);
    assert(segs.drop_first() =~= seq![SpecSegment::Literal(seq!['h', 'e', 'l', 'p'])]);
    assert(segs.drop_first().drop_first() =~= Seq::<SpecSegment>::empty());
    assert(capture_names(segs) == capture_names(segs.drop_first()));
    assert(capture_names(segs.drop_first()) == capture_names(segs.drop_first().drop_first()));
    assert(pattern_captures(Help::spec_path()) =~~= Seq::<Seq<char>>::empty());
    let bindings = Seq::<(Seq<char>, Seq<char>)>::empty();
    assert(rendered_segment(segs[0], bindings) == Some(Seq::<char>::empty()));
    assert(rendered_segments(segs.drop_first(), bindings) == Some(seq!['h', 'e', 'l', 'p']));
    assert(rendered_segments(segs, bindings) == Some(
        Seq::<char>::empty() + seq!['/'] + seq!['h', 'e', 'l', 'p'],
    ));
    assert(Seq::<char>::empty() + seq!['/'] + seq!['h', 'e', 'l', 'p'] =~= "/help"@);
}

/// The rendered root path is certainly accepted by the URI parser: its
/// `to_uri` is owed success.
pub proof fn lemma_home_uri_accepted(p: Home)
    ensures
        uri_surely_accepted(p.spec_rendered()),
{
    reveal_strlit("/");
    assert("/"@ =~= seq!['/']);
    assert(uri_path_char_ok('/'));
}

/// The rendered help path is certainly accepted by the URI parser: its
/// `to_uri` is owed success.
pub proof fn lemma_help_uri_accepted(p: Help)
    ensures
        uri_surely_accepted(p.spec_rendered()),
{
    reveal_strlit("/help");
    let s = seq!['/', 'h', 'e', 'l', 'p'];
    assert("/help"@ =~= s);
    assert forall|j: int| 0 <= j < s.len() implies s[j] != '?' && uri_path_char_ok(s[j]) by {
        assert(uri_path_char_ok('/'));
        assert(uri_path_char_ok('h'));
        assert(uri_path_char_ok('e'));
        assert(uri_path_char_ok('l'));
        assert(uri_path_char_ok('p'));
    }
}

/// A rendered parameterized path within the URI parser's length bound is
/// certainly accepted: the percent-escaping of the capture value leaves
/// no character the parser rejects, so `to_uri` is owed success.
pub proof fn lemma_some_parameter_uri_accepted(p: SomeParameterPath)
    requires
        p.spec_rendered().len() <= 65534,
    ensures
        uri_surely_accepted(p.spec_rendered()),
{
    reveal_strlit("/some/");
    let prefix = seq!['/', 's', 'o', 'm', 'e', '/'];
    assert("/some/"@ =~= prefix);
    let s = p.spec_rendered();
    let enc = path_segment_encoded(p.parameter@);
    lemma_encoded_path_is_uri_safe(vstd::utf8::encode_utf8(p.parameter@));
    assert forall|j: int| 0 <= j < s.len() implies s[j] != '?' && uri_path_char_ok(s[j]) by {
        assert(uri_path_char_ok('/'));
        assert(uri_path_char_ok('s'));
        assert(uri_path_char_ok('o'));
        assert(uri_path_char_ok('m'));
        assert(uri_path_char_ok('e'));
        if j < 6 {
            assert(s[j] == prefix[j]);
        } else {
            assert(s[j] == enc[j - 6]);
        }
    }
}

/// The `/some/:parameter` pattern declares exactly the capture
/// `parameter`, matching `SomeParameterPath`'s one field, and under a
/// binding of that name the generic pattern rendering produces exactly
/// what `SomeParameterPath`'s hand-written rendering produces.
pub proof fn lemma_some_parameter_path_matches_pattern(p: SomeParameterPath)
    ensures
        pattern_captures(SomeParameterPath::spec_path()) == seq!["parameter"@],
        spec_render_pattern(
            SomeParameterPath::spec_path(),
            seq![("parameter"@, p.parameter@)],
        ) == Some(p.spec_rendered()),
{
    reveal_strlit("/some/:parameter");
    reveal_strlit("parameter");
    reveal_strlit("/some/");
    let pat = seq![
        '/',
        's',
        'o',
        'm',
        'e',
        '/',
        ':',
        'p',
        'a',
        'r',
        'a',
        'm',
        'e',
        't',
        'e',
        'r',
    ];
    let name = seq!['p', 'a', 'r', 'a', 'm', 'e', 't', 'e', 'r'];
    assert("/some/:parameter"@ =~= pat);
    assert("parameter"@ =~= name);
    assert(split_on_slash(pat) =~~= seq![
        Seq::<char>::empty(),
        seq!['s', 'o', 'm', 'e'],
        seq![':', 'p', 'a', 'r', 'a', 'm', 'e', 't', 'e', 'r'],
    ]) by {
        reveal_with_fuel(split_on_slash, 18);
    }
    assert(seq![':', 'p', 'a', 'r', 'a', 'm', 'e', 't', 'e', 'r'].drop_first() =~= name);
    let segs = seq![
        SpecSegment::Literal(Seq::<char>::empty()),
        SpecSegment::Literal(seq!['s', 'o', 'm', 'e']),
        SpecSegment::Capture(name),
    ];
    assert(pattern_segments(pat) =~~= segs);
    assert(segs.drop_first() =~= seq![
        SpecSegment::Literal(seq!['s', 'o', 'm', 'e']),
        SpecSegment::Capture(name),
    ]);
    assert(segs.drop_first().drop_first() =~= seq![SpecSegment::Capture(name)]);
    assert(segs.drop_first().drop_first().drop_first() =~= Seq::<SpecSegment>::empty());
    assert(capture_names(segs) == capture_names(segs.drop_first()));
    assert(capture_names(segs.drop_first()) == capture_names(segs.drop_first().drop_first()));
    assert(capture_names(segs.drop_first().drop_first()) == seq![name] + capture_names(
        segs.drop_first().drop_first().drop_first(),
    ));
    assert(capture_names(segs) =~~= seq![name]);
    assert(pattern_captures(SomeParameterPath::spec_path()) =~~= seq!["parameter"@]);
    let bindings = seq![("parameter"@, p.parameter@)];
    assert(binding_value(bindings, name) == Some(p.parameter@));
    assert(rendered_segment(SpecSegment::Capture(name), bindings) == Some(
        path_segment_encoded(p.parameter@),
    ));
    assert(rendered_segments(segs.drop_first().drop_first(), bindings) == Some(
        path_segment_encoded(p.parameter@),
    ));
    assert(rendered_segments(segs.drop_first(), bindings) == Some(
        seq!['s', 'o', 'm', 'e'] + seq!['/'] + path_segment_encoded(p.parameter@),
    ));
    assert(rendered_segments(segs, bindings) == Some(
        Seq::<char>::empty() + seq!['/'] + (seq!['s', 'o', 'm', 'e'] + seq!['/']
            + path_segment_encoded(p.parameter@)),
    ));
    assert(Seq::<char>::empty() + seq!['/'] + (seq!['s', 'o', 'm', 'e'] + seq!['/']
        + path_segment_encoded(p.parameter@)) =~= "/some/"@ + path_segment_encoded(p.parameter@));
}

} // verus!
