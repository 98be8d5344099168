//! Instance paths: the JSON Pointer from the root instance down to the value
//! being validated, kept as an ordered list of steps and renderable as an
//! RFC 6901 pointer string (`/` and `~` in property names escaped as `~1` and
//! `~0`, array indices in decimal, the empty path rendered as `""`).

use vstd::prelude::*;
use vstd::string::StrSliceExecFns;
use vstd::string::StringExecFns;

use crate::json::spec_lookup;
use crate::json::JsonValue;

verus! {

/// Relies on std's String::push: appends the given character to the end of
/// the string.
pub assume_specification[ String::push ](s: &mut String, ch: char)
    ensures
        final(s)@ == old(s)@.push(ch),
;

/// One step into an instance: a property name or an array index.
#[derive(Debug, PartialEq)]
pub enum PathChunk {
    Property(String),
    Index(usize),
}

/// The mathematical form of a path step.
pub enum GChunk {
    Prop(Seq<char>),
    Idx(int),
}

impl View for PathChunk {
    type V = GChunk;

    open spec fn view(&self) -> GChunk {
        match self {
            PathChunk::Property(s) => GChunk::Prop(s@),
            PathChunk::Index(i) => GChunk::Idx(*i as int),
        }
    }
}

impl PathChunk {
    /// A copy of this step.
    pub fn dup(&self) -> (r: PathChunk)
        ensures
            r@ == self@,
    {
        match self {
            PathChunk::Property(s) => PathChunk::Property(s.clone()),
            PathChunk::Index(i) => PathChunk::Index(*i),
        }
    }
}

/// The value a path addresses inside a document, descending one step at a
/// time; `None` when a step does not apply to the value reached.
pub open spec fn json_at(v: JsonValue, path: Seq<GChunk>) -> Option<JsonValue>
    decreases path.len(),
{
    if path.len() == 0 {
        Some(v)
    } else {
        match (v, path[0]) {
            (JsonValue::Object(fields), GChunk::Prop(name)) => match spec_lookup(fields@, name) {
                Some(w) => json_at(w, path.drop_first()),
                None => None,
            },
            (JsonValue::Array(items), GChunk::Idx(i)) => if 0 <= i < items@.len() {
                json_at(items@[i], path.drop_first())
            } else {
                None
            },
            _ => None,
        }
    }
}

/// The decimal digit character for `d`.
pub open spec fn digit_of(d: int) -> char {
    if d == 0 {
        '0'
    } else if d == 1 {
        '1'
    } else if d == 2 {
        '2'
    } else if d == 3 {
        '3'
    } else if d == 4 {
        '4'
    } else if d == 5 {
        '5'
    } else if d == 6 {
        '6'
    } else if d == 7 {
        '7'
    } else if d == 8 {
        '8'
    } else {
        '9'
    }
}

/// The decimal rendering of a non-negative integer.
pub open spec fn dec_str(n: int) -> Seq<char>
    decreases n,
{
    if n < 10 {
        seq![digit_of(n)]
    } else {
        dec_str(n / 10).push(digit_of(n % 10))
    }
}

/// The escaped form of one property-name character.
pub open spec fn esc_char(c: char) -> Seq<char> {
    if c == '~' {
        seq!['~', '0']
    } else if c == '/' {
        seq!['~', '1']
    } else {
        seq![c]
    }
}

/// The escaped form of a property name.
pub open spec fn escape(s: Seq<char>) -> Seq<char>
    decreases s.len(),
{
    if s.len() == 0 {
        Seq::empty()
    } else {
        esc_char(s[0]) + escape(s.drop_first())
    }
}

/// The raw segment string of a step: the property name itself, or the decimal
/// index.
pub open spec fn chunk_string(c: GChunk) -> Seq<char> {
    match c {
        GChunk::Prop(s) => s,
        GChunk::Idx(i) => dec_str(i),
    }
}

/// The rendered segment of a step inside a pointer: property names escaped,
/// indices in decimal.
pub open spec fn chunk_render(c: GChunk) -> Seq<char> {
    match c {
        GChunk::Prop(s) => escape(s),
        GChunk::Idx(i) => dec_str(i),
    }
}

/// The JSON Pointer string of a path.
pub open spec fn spec_pointer(p: Seq<GChunk>) -> Seq<char>
    decreases p.len(),
{
    if p.len() == 0 {
        Seq::empty()
    } else {
        seq!['/'] + chunk_render(p[0]) + spec_pointer(p.drop_first())
    }
}

/// The position of the first `/` in `s`, or `s.len()` if there is none.
pub open spec fn slash_pos(s: Seq<char>) -> int
    decreases s.len(),
{
    if s.len() == 0 {
        0
    } else if s[0] == '/' {
        0
    } else {
        1 + slash_pos(s.drop_first())
    }
}

/// Undoes pointer escaping; `None` on a `~` not followed by `0` or `1`.
pub open spec fn unescape(s: Seq<char>) -> Option<Seq<char>>
    decreases s.len(),
{
    if s.len() == 0 {
        Some(Seq::empty())
    } else if s[0] == '~' {
        if s.len() >= 2 && (s[1] == '0' || s[1] == '1') {
            match unescape(s.skip(2)) {
                Some(r) => Some(
                    seq![
                        if s[1] == '0' {
                            '~'
                        } else {
                            '/'
                        },
                    ] + r,
                ),
                None => None,
            }
        } else {
            None
        }
    } else {
        match unescape(s.drop_first()) {
            Some(r) => Some(seq![s[0]] + r),
            None => None,
        }
    }
}

/// Parses the part of a pointer after a `/`: one segment up to the next `/`,
/// then the rest.
pub open spec fn parse_rest(s: Seq<char>) -> Option<Seq<Seq<char>>>
    decreases s.len() via parse_rest_decreases
{
    let k = slash_pos(s);
    match unescape(s.take(k)) {
        None => None,
        Some(seg) => if k >= s.len() {
            Some(seq![seg])
        } else {
            match parse_rest(s.skip(k + 1)) {
                None => None,
                Some(r) => Some(seq![seg] + r),
            }
        },
    }
}

#[via_fn]
proof fn parse_rest_decreases(s: Seq<char>) {
    lemma_slash_pos_bounds(s);
}

/// Parses a JSON Pointer string into its raw segment strings. The empty
/// string is the empty path; a non-empty pointer must start with `/`.
pub open spec fn spec_parse_pointer(s: Seq<char>) -> Option<Seq<Seq<char>>> {
    if s.len() == 0 {
        Some(Seq::empty())
    } else if s[0] == '/' {
        parse_rest(s.drop_first())
    } else {
        None
    }
}

/// `slash_pos` stays within the string, marks a `/`, and nothing before it is
/// a `/`.
pub proof fn lemma_slash_pos_bounds(s: Seq<char>)
    ensures
        0 <= slash_pos(s) <= s.len(),
        slash_pos(s) < s.len() ==> s[slash_pos(s)] == '/',
        forall|i: int| 0 <= i < slash_pos(s) ==> s[i] != '/',
    decreases s.len(),
{
    if s.len() > 0 && s[0] != '/' {
        lemma_slash_pos_bounds(s.drop_first());
        assert forall|i: int| 0 <= i < slash_pos(s) implies s[i] != '/' by {
            if i > 0 {
                assert(s.drop_first()[i - 1] != '/');
            }
        }
    }
}

/// Escaping distributes over concatenation.
proof fn lemma_escape_app(u: Seq<char>, v: Seq<char>)
    ensures
        escape(u + v) == escape(u) + escape(v),
    decreases u.len(),
{
    if u.len() == 0 {
        assert(u + v =~= v);
        assert(escape(u) + escape(v) =~= escape(v));
    } else {
        lemma_escape_app(u.drop_first(), v);
        assert((u + v).drop_first() =~= u.drop_first() + v);
        assert((u + v)[0] == u[0]);
        assert(esc_char(u[0]) + (escape(u.drop_first()) + escape(v)) =~= (esc_char(u[0]) + escape(
            u.drop_first(),
        )) + escape(v));
    }
}

/// An escaped property name never contains a `/`.
proof fn lemma_escape_no_slash(s: Seq<char>)
    ensures
        forall|i: int| 0 <= i < escape(s).len() ==> escape(s)[i] != '/',
    decreases s.len(),
{
    if s.len() > 0 {
        lemma_escape_no_slash(s.drop_first());
        let e0 = esc_char(s[0]);
        assert forall|i: int| 0 <= i < escape(s).len() implies escape(s)[i] != '/' by {
            if i >= e0.len() {
                assert(escape(s)[i] == escape(s.drop_first())[i - e0.len()]);
            }
        }
    }
}

/// Unescaping undoes escaping.
proof fn lemma_unescape_escape(s: Seq<char>)
    ensures
        unescape(escape(s)) == Some(s),
    decreases s.len(),
{
    if s.len() == 0 {
        assert(s =~= Seq::<char>::empty());
    } else {
        lemma_unescape_escape(s.drop_first());
        let e = escape(s);
        if s[0] == '~' {
            assert(e[0] == '~' && e[1] == '0');
            assert(e.skip(2) =~= escape(s.drop_first()));
            assert(seq!['~'] + s.drop_first() =~= s);
        } else if s[0] == '/' {
            assert(e[0] == '~' && e[1] == '1');
            assert(e.skip(2) =~= escape(s.drop_first()));
            assert(seq!['/'] + s.drop_first() =~= s);
        } else {
            assert(e[0] == s[0]);
            assert(e.drop_first() =~= escape(s.drop_first()));
            assert(seq![s[0]] + s.drop_first() =~= s);
        }
    }
}

/// A decimal rendering consists of digit characters only.
proof fn lemma_dec_str_digits(n: int)
    ensures
        forall|i: int|
            0 <= i < dec_str(n).len() ==> dec_str(n)[i] != '/' && dec_str(n)[i] != '~',
    decreases n,
{
    if n >= 10 {
        lemma_dec_str_digits(n / 10);
        assert forall|i: int|
            0 <= i < dec_str(n).len() implies dec_str(n)[i] != '/' && dec_str(n)[i] != '~' by {
            if i < dec_str(n / 10).len() {
                assert(dec_str(n)[i] == dec_str(n / 10)[i]);
            }
        }
    }
}

/// Unescaping is the identity on text without a `~`.
proof fn lemma_unescape_plain(s: Seq<char>)
    requires
        forall|i: int| 0 <= i < s.len() ==> s[i] != '~',
    ensures
        unescape(s) == Some(s),
    decreases s.len(),
{
    if s.len() == 0 {
        assert(s =~= Seq::<char>::empty());
    } else {
        lemma_unescape_plain(s.drop_first());
        assert(seq![s[0]] + s.drop_first() =~= s);
    }
}

/// The first `/` after a slash-free prefix is right where the tail begins.
proof fn lemma_slash_pos_prefix(u: Seq<char>, v: Seq<char>)
    requires
        forall|i: int| 0 <= i < u.len() ==> u[i] != '/',
        v.len() == 0 || v[0] == '/',
    ensures
        slash_pos(u + v) == u.len(),
    decreases u.len(),
{
    if u.len() == 0 {
        assert(u + v =~= v);
    } else {
        lemma_slash_pos_prefix(u.drop_first(), v);
        assert((u + v)[0] == u[0]);
        assert((u + v).drop_first() =~= u.drop_first() + v);
    }
}

/// Rendering distributes over concatenation of paths.
proof fn lemma_pointer_app(u: Seq<GChunk>, v: Seq<GChunk>)
    ensures
        spec_pointer(u + v) == spec_pointer(u) + spec_pointer(v),
    decreases u.len(),
{
    if u.len() == 0 {
        assert(u + v =~= v);
        assert(spec_pointer(u) + spec_pointer(v) =~= spec_pointer(v));
    } else {
        lemma_pointer_app(u.drop_first(), v);
        assert((u + v).drop_first() =~= u.drop_first() + v);
        assert((u + v)[0] == u[0]);
        assert(seq!['/'] + chunk_render(u[0]) + (spec_pointer(u.drop_first()) + spec_pointer(v))
            =~= (seq!['/'] + chunk_render(u[0]) + spec_pointer(u.drop_first())) + spec_pointer(v));
    }
}

/// JSON Pointer round-trip: the pointer string of a path, parsed back,
/// yields exactly the path's raw segment strings.
pub proof fn lemma_pointer_round_trip(p: Seq<GChunk>)
    ensures
        spec_parse_pointer(spec_pointer(p)) == Some(
            p.map_values(|c: GChunk| chunk_string(c)),
        ),
    decreases p.len(),
{
    let segs = p.map_values(|c: GChunk| chunk_string(c));
    if p.len() == 0 {
        assert(spec_pointer(p) =~= Seq::<char>::empty());
        assert(segs =~= Seq::<Seq<char>>::empty());
    } else {
        lemma_pointer_round_trip(p.drop_first());
        let c0 = p[0];
        let u = chunk_render(c0);
        let v = spec_pointer(p.drop_first());
        let s = spec_pointer(p);
        assert(s =~= seq!['/'] + (u + v));
        assert(s[0] == '/');
        assert(s.drop_first() =~= u + v);
        match c0 {
            GChunk::Prop(name) => {
                lemma_escape_no_slash(name);
                lemma_unescape_escape(name);
            },
            GChunk::Idx(i) => {
                lemma_dec_str_digits(i);
                lemma_unescape_plain(dec_str(i));
            },
        }
        assert(v.len() == 0 || v[0] == '/');
        lemma_slash_pos_prefix(u, v);
        let k = slash_pos(u + v);
        assert((u + v).take(k) =~= u);
        assert(unescape((u + v).take(k)) == Some(chunk_string(c0)));
        if p.len() == 1 {
            assert(v =~= Seq::<char>::empty());
            assert(k >= (u + v).len());
            assert(segs =~= seq![chunk_string(c0)]);
        } else {
            assert(k < (u + v).len());
            assert((u + v).skip(k + 1) =~= v.drop_first());
            assert(parse_rest(v.drop_first()) == Some(
                p.drop_first().map_values(|c: GChunk| chunk_string(c)),
            ));
            assert(segs =~= seq![chunk_string(c0)] + p.drop_first().map_values(
                |c: GChunk| chunk_string(c),
            ));
        }
    }
}

/// The decimal digit character for a digit below ten.
fn digit_char(d: u8) -> (c: char)
    ensures
        c == digit_of(d as int),
{
    if d == 0 {
        '0'
    } else if d == 1 {
        '1'
    } else if d == 2 {
        '2'
    } else if d == 3 {
        '3'
    } else if d == 4 {
        '4'
    } else if d == 5 {
        '5'
    } else if d == 6 {
        '6'
    } else if d == 7 {
        '7'
    } else if d == 8 {
        '8'
    } else {
        '9'
    }
}

/// Renders an index in decimal.
pub fn dec_string(n: u64) -> (r: String)
    ensures
        r@ == dec_str(n as int),
    decreases n,
{
    if n < 10 {
        let mut s = String::new();
        s.push(digit_char(n as u8));
        proof {
            assert(s@ =~= seq![digit_of(n as int)]);
        }
        s
    } else {
        let mut s = dec_string(n / 10);
        s.push(digit_char((n % 10) as u8));
        s
    }
}

/// Appends the escaped form of a property name.
fn push_escaped(out: &mut String, s: &String)
    ensures
        final(out)@ == old(out)@ + escape(s@),
{
    let n = s.as_str().unicode_len();
    let mut i: usize = 0;
    while i < n
        invariant
            i <= n,
            n == s@.len(),
            out@ == old(out)@ + escape(s@.take(i as int)),
        decreases n - i,
    {
        let c = s.as_str().get_char(i);
        if c == '~' {
            out.push('~');
            out.push('0');
        } else if c == '/' {
            out.push('~');
            out.push('1');
        } else {
            out.push(c);
        }
        proof {
            assert(s@.take(i + 1 as int) =~= s@.take(i as int) + seq![s@[i as int]]);
            lemma_escape_app(s@.take(i as int), seq![s@[i as int]]);
            assert(seq![s@[i as int]].drop_first() =~= Seq::<char>::empty());
            assert(escape(Seq::<char>::empty()) =~= Seq::<char>::empty());
            assert(escape(seq![s@[i as int]]) =~= esc_char(s@[i as int]));
            assert(out@ =~= old(out)@ + escape(s@.take(i + 1 as int)));
        }
        i += 1;
    }
    proof {
        assert(s@.take(n as int) =~= s@);
    }
}

/// Parses a JSON Pointer string back into its raw segment strings: the
/// empty string is the empty path; otherwise each `/`-separated segment is
/// unescaped, and a stray `~` rejects the pointer.
#[verifier::loop_isolation(false)]
pub fn parse_pointer(s: &str) -> (r: Option<Vec<String>>)
    ensures
        match (r, spec_parse_pointer(s@)) {
            (Some(v), Some(segs)) => v@.len() == segs.len() && (forall|i: int|
                0 <= i < v@.len() ==> (#[trigger] v@[i])@ == segs[i]),
            (None, None) => true,
            _ => false,
        },
{
    let n = s.unicode_len();
    let mut out: Vec<String> = Vec::new();
    if n == 0 {
        return Some(out);
    }
    if s.get_char(0) != '/' {
        return None;
    }
    let mut i: usize = 1;
    loop
        invariant
            1 <= i <= n,
            spec_parse_pointer(s@) == (match parse_rest(s@.skip(i as int)) {
                Some(t) => Some(out@.map_values(|x: String| x@) + t),
                None => None::<Seq<Seq<char>>>,
            }),
        decreases n - i + 1,
    {
        let ghost start = i as int;
        let mut k: usize = i;
        while k < n
            invariant
                i <= k <= n,
                forall|m: int| start <= m < k ==> s@[m] != '/',
            decreases n - k,
        {
            if s.get_char(k) == '/' {
                break ;
            }
            k += 1;
        }
        proof {
            assert(s@.subrange(start, k as int) + s@.skip(k as int) =~= s@.skip(start));
            lemma_slash_pos_prefix(s@.subrange(start, k as int), s@.skip(k as int));
            assert(slash_pos(s@.skip(start)) == k - start);
            assert(s@.skip(start).take(k - start) =~= s@.subrange(start, k as int));
        }
        let mut seg = String::new();
        let mut j: usize = i;
        while j < k
            invariant
                i <= j <= k <= n,
                unescape(s@.subrange(start, k as int)) == (match unescape(
                    s@.subrange(j as int, k as int),
                ) {
                    Some(t) => Some(seg@ + t),
                    None => None::<Seq<char>>,
                }),
            decreases k - j,
        {
            let c = s.get_char(j);
            let ghost before = seg@;
            if c == '~' {
                if j + 1 >= k {
                    return None;
                }
                let d = s.get_char(j + 1);
                if d == '0' {
                    seg.push('~');
                } else if d == '1' {
                    seg.push('/');
                } else {
                    return None;
                }
                proof {
                    assert(s@.subrange(j as int, k as int).skip(2) =~= s@.subrange(
                        j + 2 as int,
                        k as int,
                    ));
                    assert(s@.subrange(j as int, k as int)[0] == s@[j as int]);
                    assert(s@.subrange(j as int, k as int)[1] == s@[j + 1 as int]);
                    match unescape(s@.subrange(j + 2 as int, k as int)) {
                        Some(t) => {
                            assert(before + (seq![
                                if d == '0' {
                                    '~'
                                } else {
                                    '/'
                                },
                            ] + t) =~= seg@ + t);
                        },
                        None => {},
                    }
                }
                j += 2;
            } else {
                seg.push(c);
                proof {
                    assert(s@.subrange(j as int, k as int).drop_first() =~= s@.subrange(
                        j + 1 as int,
                        k as int,
                    ));
                    assert(s@.subrange(j as int, k as int)[0] == s@[j as int]);
                    match unescape(s@.subrange(j + 1 as int, k as int)) {
                        Some(t) => {
                            assert(before + (seq![s@[j as int]] + t) =~= seg@ + t);
                        },
                        None => {},
                    }
                }
                j += 1;
            }
        }
        proof {
            assert(s@.subrange(k as int, k as int) =~= Seq::<char>::empty());
            assert(unescape(Seq::<char>::empty()) == Some(Seq::<char>::empty()));
            assert(seg@ + Seq::<char>::empty() =~= seg@);
            assert(unescape(s@.subrange(start, k as int)) == Some(seg@));
        }
        let ghost prefix = out@.map_values(|x: String| x@);
        out.push(seg);
        proof {
            assert(out@.map_values(|x: String| x@) =~= prefix.push(seg@));
        }
        if k == n {
            proof {
                assert(slash_pos(s@.skip(start)) == s@.skip(start).len());
                assert(parse_rest(s@.skip(start)) == Some(seq![seg@]));
                assert(prefix + seq![seg@] =~= out@.map_values(|x: String| x@));
            }
            return Some(out);
        }
        proof {
            assert(s@.skip(start).skip(k - start + 1) =~= s@.skip(k + 1 as int));
            match parse_rest(s@.skip(k + 1 as int)) {
                Some(t) => {
                    assert(parse_rest(s@.skip(start)) == Some(seq![seg@] + t));
                    assert(prefix + (seq![seg@] + t) =~= out@.map_values(|x: String| x@) + t);
                },
                None => {},
            }
        }
        i = k + 1;
    }
}

/// The instance path: the ordered steps from the root instance down to the
/// value being validated.
pub struct InstancePath {
    pub chunks: Vec<PathChunk>,
}

impl View for InstancePath {
    type V = Seq<GChunk>;

    open spec fn view(&self) -> Seq<GChunk> {
        self.chunks@.map_values(|c: PathChunk| c@)
    }
}

impl InstancePath {
    /// The empty path, addressing the root instance.
    pub fn new() -> (r: InstancePath)
        ensures
            r@ == Seq::<GChunk>::empty(),
    {
        let r = InstancePath { chunks: Vec::new() };
        proof {
            assert(r@ =~= Seq::<GChunk>::empty());
        }
        r
    }

    /// A copy of this path.
    pub fn dup(&self) -> (r: InstancePath)
        ensures
            r@ == self@,
    {
        let mut chunks: Vec<PathChunk> = Vec::new();
        let mut i: usize = 0;
        while i < self.chunks.len()
            invariant
                i <= self.chunks@.len(),
                chunks@.len() == i,
                forall|k: int| 0 <= k < i ==> (#[trigger] chunks@[k])@ == self.chunks@[k]@,
            decreases self.chunks@.len() - i,
        {
            chunks.push(self.chunks[i].dup());
            i += 1;
        }
        let r = InstancePath { chunks };
        proof {
            assert(r@ =~= self@);
        }
        r
    }

    /// This path extended by one step.
    pub fn extended(&self, c: PathChunk) -> (r: InstancePath)
        ensures
            r@ == self@.push(c@),
    {
        let mut r = self.dup();
        let ghost before = r@;
        r.chunks.push(c);
        proof {
            assert(r@ =~= before.push(c@));
        }
        r
    }

    /// The number of steps.
    pub fn len(&self) -> (n: usize)
        ensures
            n == self@.len(),
    {
        self.chunks.len()
    }

    /// The path as a JSON Pointer string; the empty path renders as `""`.
    pub fn to_pointer(&self) -> (r: String)
        ensures
            r@ == spec_pointer(self@),
    {
        let mut out = String::new();
        let mut i: usize = 0;
        proof {
            assert(self@.take(0) =~= Seq::<GChunk>::empty());
        }
        while i < self.chunks.len()
            invariant
                i <= self.chunks@.len(),
                out@ == spec_pointer(self@.take(i as int)),
            decreases self.chunks@.len() - i,
        {
            out.push('/');
            match &self.chunks[i] {
                PathChunk::Property(name) => push_escaped(&mut out, name),
                PathChunk::Index(idx) => {
                    let d = dec_string(*idx as u64);
                    out.append(d.as_str());
                },
            }
            proof {
                let pv = self@;
                assert(pv[i as int] == self.chunks@[i as int]@);
                assert(pv.take(i + 1 as int) =~= pv.take(i as int) + seq![pv[i as int]]);
                lemma_pointer_app(pv.take(i as int), seq![pv[i as int]]);
                assert(seq![pv[i as int]].drop_first() =~= Seq::<GChunk>::empty());
                assert(spec_pointer(Seq::<GChunk>::empty()) =~= Seq::<char>::empty());
                assert(spec_pointer(seq![pv[i as int]]) =~= seq!['/'] + chunk_render(
                    pv[i as int],
                ));
                assert(out@ =~= spec_pointer(pv.take(i + 1 as int)));
            }
            i += 1;
        }
        proof {
            assert(self@.take(self.chunks@.len() as int) =~= self@);
        }
        out
    }

    /// The raw segment strings of the path: property names as given, indices
    /// in decimal.
    pub fn segment_strings(&self) -> (r: Vec<String>)
        ensures
            r@.len() == self@.len(),
            forall|i: int| 0 <= i < r@.len() ==> (#[trigger] r@[i])@ == chunk_string(self@[i]),
    {
        let mut r: Vec<String> = Vec::new();
        let mut i: usize = 0;
        while i < self.chunks.len()
            invariant
                i <= self.chunks@.len(),
                r@.len() == i,
                forall|k: int| 0 <= k < i ==> (#[trigger] r@[k])@ == chunk_string(self@[k]),
            decreases self.chunks@.len() - i,
        {
            match &self.chunks[i] {
                PathChunk::Property(name) => r.push(name.clone()),
                PathChunk::Index(idx) => r.push(dec_string(*idx as u64)),
            }
            i += 1;
        }
        r
    }
}

} // verus!
