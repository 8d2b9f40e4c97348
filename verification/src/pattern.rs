//! Declared route patterns: literal segments and named captures.
//!
//! A pattern such as `/some/:parameter` is the text between slashes, read
//! segment by segment: a segment beginning with the `:` marker is a named
//! capture, any other segment is literal text. A colon anywhere else in a
//! segment is ordinary text; only the segment boundary position marks a
//! capture. Splitting keeps empty segments, so joining the segments with
//! `/` gives back exactly the declared pattern.
//!
//! Rendering substitutes each capture with the bound value, escaped under
//! the path-segment policy, and passes literal segments through verbatim.
//! A capture with no bound value cannot be rendered: the declared capture
//! names must correspond one to one with the fields backing them, which
//! `pattern_matches_fields` checks.

use vstd::prelude::*;

use crate::encoding::path_segment_encoded;
use crate::encoding::push_char;

verus! {

/// One piece of a route pattern: the text between two slashes.
#[derive(Debug)]
pub enum PathSegment {
    /// Literal text, rendered verbatim.
    Literal(String),
    /// A named capture, rendered from the equally named field's value.
    Capture(String),
}

/// The mathematical form of one pattern piece.
pub ghost enum SpecSegment {
    Literal(Seq<char>),
    Capture(Seq<char>),
}

impl View for PathSegment {
    type V = SpecSegment;

    open spec fn view(&self) -> SpecSegment {
        match self {
            PathSegment::Literal(s) => SpecSegment::Literal(s@),
            PathSegment::Capture(s) => SpecSegment::Capture(s@),
        }
    }
}

/// The views of a sequence of owned segments.
pub open spec fn segments_view(v: Seq<PathSegment>) -> Seq<SpecSegment> {
    v.map_values(|p: PathSegment| p@)
}

/// The views of a sequence of owned strings.
pub open spec fn strings_view(v: Seq<String>) -> Seq<Seq<char>> {
    v.map_values(|s: String| s@)
}

/// The chunks of a string split at every slash, empty chunks kept: the
/// split of the empty string is one empty chunk, and each slash opens a
/// new chunk.
pub open spec fn split_on_slash(s: Seq<char>) -> Seq<Seq<char>>
    decreases s.len(),
{
    if s.len() == 0 {
        seq![Seq::<char>::empty()]
    } else if s[0] == '/' {
        seq![Seq::<char>::empty()] + split_on_slash(s.drop_first())
    } else {
        let rest = split_on_slash(s.drop_first());
        seq![seq![s[0]] + rest[0]] + rest.drop_first()
    }
}

/// A split has at least one chunk.
pub proof fn lemma_split_on_slash_nonempty(s: Seq<char>)
    ensures
        split_on_slash(s).len() >= 1,
    decreases s.len(),
{
    if s.len() == 0 {
    } else {
        lemma_split_on_slash_nonempty(s.drop_first());
    }
}

/// How one chunk of a pattern is read: the `:` marker at the chunk's
/// start makes it a capture named by the remaining text.
pub open spec fn chunk_segment(c: Seq<char>) -> SpecSegment {
    if c.len() > 0 && c[0] == ':' {
        SpecSegment::Capture(c.drop_first())
    } else {
        SpecSegment::Literal(c)
    }
}

/// The segments a declared pattern consists of.
pub open spec fn pattern_segments(s: Seq<char>) -> Seq<SpecSegment> {
    split_on_slash(s).map_values(|c: Seq<char>| chunk_segment(c))
}

/// The capture names among a sequence of segments, in order.
pub open spec fn capture_names(segs: Seq<SpecSegment>) -> Seq<Seq<char>>
    decreases segs.len(),
{
    if segs.len() == 0 {
        Seq::<Seq<char>>::empty()
    } else {
        match segs[0] {
            SpecSegment::Capture(n) => seq![n] + capture_names(segs.drop_first()),
            SpecSegment::Literal(_) => capture_names(segs.drop_first()),
        }
    }
}

/// The capture names a declared pattern binds, in declaration order.
pub open spec fn pattern_captures(s: Seq<char>) -> Seq<Seq<char>> {
    capture_names(pattern_segments(s))
}

/// The value bound to a name, first binding wins; absent if unbound.
pub open spec fn binding_value(bindings: Seq<(Seq<char>, Seq<char>)>, name: Seq<char>) -> Option<
    Seq<char>,
>
    decreases bindings.len(),
{
    if bindings.len() == 0 {
        Option::<Seq<char>>::None
    } else if bindings[0].0 == name {
        Some(bindings[0].1)
    } else {
        binding_value(bindings.drop_first(), name)
    }
}

/// What one segment renders to: literal text verbatim, a capture as the
/// bound value escaped under the path-segment policy; absent when the
/// capture has no binding.
pub open spec fn rendered_segment(
    seg: SpecSegment,
    bindings: Seq<(Seq<char>, Seq<char>)>,
) -> Option<Seq<char>> {
    match seg {
        SpecSegment::Literal(l) => Some(l),
        SpecSegment::Capture(n) => match binding_value(bindings, n) {
            Some(v) => Some(path_segment_encoded(v)),
            None => None,
        },
    }
}

/// What a sequence of segments renders to, joined with slashes; absent
/// as soon as any capture is unbound.
pub open spec fn rendered_segments(
    segs: Seq<SpecSegment>,
    bindings: Seq<(Seq<char>, Seq<char>)>,
) -> Option<Seq<char>>
    decreases segs.len(),
{
    if segs.len() == 0 {
        Some(Seq::<char>::empty())
    } else if segs.len() == 1 {
        rendered_segment(segs[0], bindings)
    } else {
        match (rendered_segment(segs[0], bindings), rendered_segments(
            segs.drop_first(),
            bindings,
        )) {
            (Some(a), Some(r)) => Some(a + seq!['/'] + r),
            _ => None,
        }
    }
}

/// What a declared pattern renders to under the given bindings.
pub open spec fn spec_render_pattern(
    pattern: Seq<char>,
    bindings: Seq<(Seq<char>, Seq<char>)>,
) -> Option<Seq<char>> {
    rendered_segments(pattern_segments(pattern), bindings)
}

/// The views of a sequence of owned binding pairs.
pub open spec fn pairs_view(v: Seq<(String, String)>) -> Seq<(Seq<char>, Seq<char>)> {
    v.map_values(|p: (String, String)| (p.0@, p.1@))
}

/// Skipping bindings whose names all differ from the looked-up name
/// leaves the looked-up value unchanged.
proof fn lemma_binding_value_skip(bindings: Seq<(Seq<char>, Seq<char>)>, name: Seq<char>, i: int)
    requires
        0 <= i <= bindings.len(),
        forall|j: int| 0 <= j < i ==> bindings[j].0 != name,
    ensures
        binding_value(bindings, name) == binding_value(bindings.skip(i), name),
    decreases i,
{
    if i == 0 {
        assert(bindings.skip(0) =~= bindings);
    } else {
        assert(bindings[0].0 != name);
        assert(bindings.drop_first() =~= bindings.skip(1));
        lemma_binding_value_skip(bindings.drop_first(), name, i - 1);
        assert(bindings.drop_first().skip(i - 1) =~= bindings.skip(i));
    }
}

/// Looks up the value bound to a name, first binding wins.
fn lookup_binding(bindings: &Vec<(String, String)>, name: &str) -> (r: Option<String>)
    ensures
        binding_value(pairs_view(bindings@), name@) matches Some(v) ==> r matches Some(s) && s@
            == v,
        binding_value(pairs_view(bindings@), name@) is None ==> r is None,
{
    let name_owned = String::from_str(name);
    let mut i: usize = 0;
    while i < bindings.len()
        invariant
            i <= bindings@.len(),
            name_owned@ == name@,
            forall|j: int| 0 <= j < i ==> pairs_view(bindings@)[j].0 != name@,
        decreases bindings@.len() - i,
    {
        if bindings[i].0 == name_owned {
            proof {
                lemma_binding_value_skip(pairs_view(bindings@), name@, i as int);
                assert(pairs_view(bindings@).skip(i as int)[0] == pairs_view(bindings@)[i as int]);
                assert(pairs_view(bindings@).skip(i as int).len() > 0);
            }
            return Some(bindings[i].1.clone());
        }
        i += 1;
    }
    proof {
        lemma_binding_value_skip(pairs_view(bindings@), name@, bindings@.len() as int);
        assert(pairs_view(bindings@).skip(bindings@.len() as int) =~= Seq::<(
            Seq<char>,
            Seq<char>,
        )>::empty());
    }
    None
}

/// Appending one segment extends the rendering, preceded by a slash
/// unless it is the first segment; an unrenderable segment, or an
/// already failed rendering, makes the whole rendering fail.
proof fn lemma_rendered_segments_push(
    segs: Seq<SpecSegment>,
    seg: SpecSegment,
    bindings: Seq<(Seq<char>, Seq<char>)>,
)
    ensures
        rendered_segments(segs + seq![seg], bindings) == (match (rendered_segments(
            segs,
            bindings,
        ), rendered_segment(seg, bindings)) {
            (Some(a), Some(x)) => if segs.len() == 0 {
                Some(x)
            } else {
                Some(a + seq!['/'] + x)
            },
            _ => None::<Seq<char>>,
        }),
    decreases segs.len(),
{
    let t = segs + seq![seg];
    if segs.len() == 0 {
        assert(t =~= seq![seg]);
    } else {
        assert(t[0] == segs[0]);
        assert(t.drop_first() =~= segs.drop_first() + seq![seg]);
        lemma_rendered_segments_push(segs.drop_first(), seg, bindings);
        if segs.len() == 1 {
            assert(segs.drop_first() =~= Seq::<SpecSegment>::empty());
        }
        match (rendered_segments(segs, bindings), rendered_segment(seg, bindings)) {
            (Some(a), Some(x)) => {
                if segs.len() > 1 {
                    assert(rendered_segments(t, bindings) =~~= Some(a + seq!['/'] + x));
                }
            },
            _ => {},
        }
    }
}

/// Renders a parsed pattern under the given bindings: literal segments
/// verbatim joined by slashes, each capture replaced by the bound value
/// escaped under the path-segment policy; fails exactly when a capture
/// has no binding. This is what a generated rendering for a route type
/// does, written once over any pattern.
pub fn render_segments(segs: &Vec<PathSegment>, bindings: &Vec<(String, String)>) -> (r: Option<
    String,
>)
    ensures
        rendered_segments(segments_view(segs@), pairs_view(bindings@)) matches Some(v)
            ==> r matches Some(s) && s@ == v,
        rendered_segments(segments_view(segs@), pairs_view(bindings@)) is None ==> r is None,
{
    let mut out = String::new();
    let mut i: usize = 0;
    while i < segs.len()
        invariant
            i <= segs@.len(),
            rendered_segments(segments_view(segs@).take(i as int), pairs_view(bindings@))
                matches Some(v) && out@ == v,
        decreases segs@.len() - i,
    {
        proof {
            assert(segments_view(segs@).take(i + 1) =~= segments_view(segs@).take(i as int)
                + seq![segs@[i as int]@]);
            lemma_rendered_segments_push(
                segments_view(segs@).take(i as int),
                segs@[i as int]@,
                pairs_view(bindings@),
            );
        }
        if i > 0 {
            push_char(&mut out, '/');
        }
        match &segs[i] {
            PathSegment::Literal(l) => {
                out.append(l.as_str());
            },
            PathSegment::Capture(n) => {
                match lookup_binding(bindings, n.as_str()) {
                    Some(v) => {
                        let encoded = crate::encoding::encode_path_segment(v.as_str());
                        out.append(encoded.as_str());
                    },
                    None => {
                        proof {
                            lemma_rendered_segments_none(
                                segments_view(segs@),
                                pairs_view(bindings@),
                                i as int,
                            );
                        }
                        return None;
                    },
                }
            },
        }
        i += 1;
    }
    proof {
        assert(segments_view(segs@).take(segs@.len() as int) =~= segments_view(segs@));
    }
    Some(out)
}

/// One unrenderable segment makes the whole rendering fail.
proof fn lemma_rendered_segments_none(
    segs: Seq<SpecSegment>,
    bindings: Seq<(Seq<char>, Seq<char>)>,
    i: int,
)
    requires
        0 <= i < segs.len(),
        rendered_segment(segs[i], bindings) is None,
    ensures
        rendered_segments(segs, bindings) is None,
    decreases segs.len(),
{
    if segs.len() == 1 {
    } else {
        if i == 0 {
        } else {
            lemma_rendered_segments_none(segs.drop_first(), bindings, i - 1);
        }
    }
}

/// Appending one character extends the split: a slash opens a fresh
/// empty chunk, any other character extends the last chunk.
proof fn lemma_split_on_slash_push(s: Seq<char>, c: char)
    ensures
        c == '/' ==> split_on_slash(s + seq![c]) =~~= split_on_slash(s) + seq![
            Seq::<char>::empty(),
        ],
        c != '/' ==> split_on_slash(s + seq![c]) =~~= split_on_slash(s).update(
            split_on_slash(s).len() - 1,
            split_on_slash(s).last() + seq![c],
        ),
    decreases s.len(),
{
    lemma_split_on_slash_nonempty(s);
    let t = s + seq![c];
    if s.len() == 0 {
        assert(t =~= seq![c]);
        if c == '/' {
            assert(t.drop_first() =~= Seq::<char>::empty());
        } else {
            assert(t.drop_first() =~= Seq::<char>::empty());
            assert(split_on_slash(t) == seq![seq![t[0]] + split_on_slash(t.drop_first())[0]]
                + split_on_slash(t.drop_first()).drop_first());
            assert(seq![t[0]] + split_on_slash(t.drop_first())[0] =~= seq![c]);
            assert(split_on_slash(t.drop_first()).drop_first() =~= Seq::<Seq<char>>::empty());
            assert(split_on_slash(s).last() + seq![c] =~= seq![c]);
        }
    } else {
        assert(t[0] == s[0]);
        assert(t.drop_first() =~= s.drop_first() + seq![c]);
        lemma_split_on_slash_push(s.drop_first(), c);
        lemma_split_on_slash_nonempty(s.drop_first());
        let rs = split_on_slash(s.drop_first());
        let rt = split_on_slash(t.drop_first());
        if s[0] == '/' {
            assert(split_on_slash(t) == seq![Seq::<char>::empty()] + rt);
            assert(split_on_slash(s) == seq![Seq::<char>::empty()] + rs);
            if c == '/' {
                assert(split_on_slash(t) =~~= split_on_slash(s) + seq![Seq::<char>::empty()]);
            } else {
                assert(split_on_slash(s).last() == rs.last());
                assert(split_on_slash(t) =~~= split_on_slash(s).update(
                    split_on_slash(s).len() - 1,
                    split_on_slash(s).last() + seq![c],
                ));
            }
        } else {
            assert(split_on_slash(t) == seq![seq![t[0]] + rt[0]] + rt.drop_first());
            assert(split_on_slash(s) == seq![seq![s[0]] + rs[0]] + rs.drop_first());
            if c == '/' {
                assert(rt =~~= rs + seq![Seq::<char>::empty()]);
                assert(rt[0] == rs[0]);
                assert(rt.drop_first() =~= rs.drop_first() + seq![Seq::<char>::empty()]);
                assert(split_on_slash(t) =~~= split_on_slash(s) + seq![Seq::<char>::empty()]);
            } else {
                assert(rt =~~= rs.update(rs.len() - 1, rs.last() + seq![c]));
                if rs.len() == 1 {
                    assert(rt[0] == rs[0] + seq![c]);
                    assert(seq![t[0]] + rt[0] =~= (seq![s[0]] + rs[0]) + seq![c]);
                    assert(split_on_slash(t) =~~= split_on_slash(s).update(
                        split_on_slash(s).len() - 1,
                        split_on_slash(s).last() + seq![c],
                    ));
                } else {
                    assert(rt[0] == rs[0]);
                    assert(rt.drop_first() =~= rs.drop_first().update(
                        rs.len() - 2,
                        rs.last() + seq![c],
                    ));
                    assert(split_on_slash(s).last() == rs.last());
                    assert(split_on_slash(t) =~~= split_on_slash(s).update(
                        split_on_slash(s).len() - 1,
                        split_on_slash(s).last() + seq![c],
                    ));
                }
            }
        }
    }
}

/// Splits a pattern at every slash, empty chunks kept.
pub fn split_pattern(pattern: &str) -> (chunks: Vec<String>)
    ensures
        strings_view(chunks@) == split_on_slash(pattern@),
{
    let n = pattern.unicode_len();
    let mut done: Vec<String> = Vec::new();
    let mut current = String::new();
    let mut i: usize = 0;
    while i < n
        invariant
            i <= n,
            n == pattern@.len(),
            strings_view(done@) + seq![current@] =~~= split_on_slash(pattern@.take(i as int)),
        decreases n - i,
    {
        let c = pattern.get_char(i);
        proof {
            assert(pattern@.take(i + 1) =~= pattern@.take(i as int) + seq![pattern@[i as int]]);
            lemma_split_on_slash_push(pattern@.take(i as int), pattern@[i as int]);
            lemma_split_on_slash_nonempty(pattern@.take(i as int));
        }
        if c == '/' {
            done.push(current);
            current = String::new();
            proof {
                assert(strings_view(done@) + seq![current@] =~~= split_on_slash(
                    pattern@.take(i + 1),
                ));
            }
        } else {
            push_char(&mut current, c);
            proof {
                assert(strings_view(done@) + seq![current@] =~~= split_on_slash(
                    pattern@.take(i + 1),
                ));
            }
        }
        i += 1;
    }
    done.push(current);
    proof {
        assert(pattern@.take(n as int) =~= pattern@);
        assert(strings_view(done@) =~~= split_on_slash(pattern@));
    }
    done
}

/// Reads a declared pattern into its segments: the text between slashes,
/// each chunk a capture when it begins with the `:` marker, literal text
/// otherwise.
pub fn parse_pattern(pattern: &str) -> (segs: Vec<PathSegment>)
    ensures
        segments_view(segs@) == pattern_segments(pattern@),
{
    let chunks = split_pattern(pattern);
    let mut segs: Vec<PathSegment> = Vec::new();
    let mut i: usize = 0;
    while i < chunks.len()
        invariant
            i <= chunks@.len(),
            strings_view(chunks@) == split_on_slash(pattern@),
            segs@.len() == i,
            forall|j: int|
                0 <= j < i ==> segments_view(segs@)[j] == chunk_segment(
                    split_on_slash(pattern@)[j],
                ),
        decreases chunks@.len() - i,
    {
        let chunk = &chunks[i];
        proof {
            assert(chunk@ == strings_view(chunks@)[i as int]);
            assert(chunk@ == split_on_slash(pattern@)[i as int]);
        }
        let is_capture = chunk.unicode_len() > 0 && chunk.as_str().get_char(0) == ':';
        let elem: PathSegment;
        if is_capture {
            let name = chunk.as_str().substring_char(1, chunk.unicode_len());
            proof {
                assert(name@ =~= chunk@.drop_first());
            }
            elem = PathSegment::Capture(String::from_str(name));
        } else {
            elem = PathSegment::Literal(chunk.clone());
        }
        proof {
            assert(elem@ == chunk_segment(chunk@));
        }
        let ghost prev = segs@;
        segs.push(elem);
        proof {
            assert forall|j: int| 0 <= j <= i implies segments_view(segs@)[j] == chunk_segment(
                split_on_slash(pattern@)[j],
            ) by {
                assert(segments_view(segs@)[j] == segs@[j]@);
                if j < i {
                    assert(segs@[j] == prev[j]);
                    assert(segments_view(prev)[j] == prev[j]@);
                }
            }
        }
        i += 1;
    }
    proof {
        assert(segs@.len() == split_on_slash(pattern@).len());
        assert forall|j: int| 0 <= j < segs@.len() implies segments_view(segs@)[j]
            == pattern_segments(pattern@)[j] by {
            assert(pattern_segments(pattern@)[j] == chunk_segment(split_on_slash(pattern@)[j]));
        }
        assert(segments_view(segs@) =~~= pattern_segments(pattern@));
    }
    segs
}

/// Collects the capture names of a parsed pattern, in declaration order.
pub fn captures_of(segs: &Vec<PathSegment>) -> (names: Vec<String>)
    ensures
        strings_view(names@) == capture_names(segments_view(segs@)),
{
    let mut names: Vec<String> = Vec::new();
    let mut i: usize = 0;
    while i < segs.len()
        invariant
            i <= segs@.len(),
            strings_view(names@) =~~= capture_names(segments_view(segs@).take(i as int)),
        decreases segs@.len() - i,
    {
        proof {
            lemma_capture_names_push(segments_view(segs@).take(i as int), segs@[i as int]@);
            assert(segments_view(segs@).take(i + 1) =~= segments_view(segs@).take(i as int)
                + seq![segs@[i as int]@]);
        }
        match &segs[i] {
            PathSegment::Capture(n) => {
                names.push(n.clone());
            },
            PathSegment::Literal(_) => {},
        }
        i += 1;
    }
    proof {
        assert(segments_view(segs@).take(segs@.len() as int) =~= segments_view(segs@));
    }
    names
}

/// Appending one segment appends its capture name, if it is a capture.
proof fn lemma_capture_names_push(segs: Seq<SpecSegment>, seg: SpecSegment)
    ensures
        capture_names(segs + seq![seg]) =~~= capture_names(segs) + (match seg {
            SpecSegment::Capture(n) => seq![n],
            SpecSegment::Literal(_) => Seq::<Seq<char>>::empty(),
        }),
    decreases segs.len(),
{
    let t = segs + seq![seg];
    if segs.len() == 0 {
        assert(t =~= seq![seg]);
        assert(t.drop_first() =~= Seq::<SpecSegment>::empty());
        assert(capture_names(t.drop_first()) =~~= Seq::<Seq<char>>::empty());
        match seg {
            SpecSegment::Capture(n) => {
                assert(capture_names(t) =~~= seq![n]);
                assert(capture_names(segs) + seq![n] =~~= seq![n]);
            },
            SpecSegment::Literal(_) => {
                assert(capture_names(t) =~~= Seq::<Seq<char>>::empty());
            },
        }
    } else {
        assert(t[0] == segs[0]);
        assert(t.drop_first() =~= segs.drop_first() + seq![seg]);
        lemma_capture_names_push(segs.drop_first(), seg);
        let tail = match seg {
            SpecSegment::Capture(n) => seq![n],
            SpecSegment::Literal(_) => Seq::<Seq<char>>::empty(),
        };
        match segs[0] {
            SpecSegment::Capture(m) => {
                assert(capture_names(t) == seq![m] + capture_names(t.drop_first()));
                assert(capture_names(segs) == seq![m] + capture_names(segs.drop_first()));
                assert(capture_names(t) =~~= capture_names(segs) + tail);
            },
            SpecSegment::Literal(_) => {
                assert(capture_names(t) == capture_names(t.drop_first()));
                assert(capture_names(segs) == capture_names(segs.drop_first()));
                assert(capture_names(t) =~~= capture_names(segs) + tail);
            },
        }
    }
}

/// Checks that a declared pattern's capture names correspond one to one,
/// in order, with the given field names: the declaration-time validity
/// check for a route type.
pub fn pattern_matches_fields(pattern: &str, fields: &Vec<String>) -> (ok: bool)
    ensures
        ok == (pattern_captures(pattern@) == strings_view(fields@)),
{
    let segs = parse_pattern(pattern);
    let names = captures_of(&segs);
    if names.len() != fields.len() {
        proof {
            assert(pattern_captures(pattern@).len() != strings_view(fields@).len());
        }
        return false;
    }
    let mut i: usize = 0;
    while i < names.len()
        invariant
            i <= names@.len(),
            names@.len() == fields@.len(),
            strings_view(names@) == pattern_captures(pattern@),
            forall|j: int| 0 <= j < i ==> strings_view(names@)[j] == strings_view(fields@)[j],
        decreases names@.len() - i,
    {
        if names[i] != fields[i] {
            proof {
                assert(pattern_captures(pattern@)[i as int] != strings_view(fields@)[i as int]);
            }
            return false;
        }
        i += 1;
    }
    proof {
        assert(pattern_captures(pattern@) =~~= strings_view(fields@));
    }
    true
}

} // verus!
