//! The envelope grammar of the wire protocol: a JSON object of members
//! whose values are strings, non-negative integers, or one further object
//! of string and integer members — exactly the shapes the signalling
//! messages use. Inputs outside this grammar are not envelopes.

use vstd::prelude::*;

use crate::jsontext::{
    dec_str, is_digit, lemma_dec_str_props, lemma_parse_string_round, lemma_parse_uint_round,
    lemma_skip_ws_id, max_numeral_digits, parse_string_at, parse_uint_at, plain_char, pow10,
    quote, skip_ws_at, spec_parse_string, spec_parse_uint, spec_skip_ws,
};

verus! {

/// A primitive envelope value.
pub ghost enum PrimV {
    S(Seq<char>),
    N(int),
}

/// A top-level envelope value: a primitive or one flat object.
pub ghost enum TopV {
    Prim(PrimV),
    Obj(Seq<(Seq<char>, PrimV)>),
}

/// A parsed primitive value.
pub enum PrimValue {
    S(String),
    N(u64),
}

/// A parsed top-level value.
pub enum TopValue {
    Prim(PrimValue),
    Obj(Vec<(String, PrimValue)>),
}

impl View for PrimValue {
    type V = PrimV;

    open spec fn view(&self) -> PrimV {
        match self {
            PrimValue::S(s) => PrimV::S(s@),
            PrimValue::N(n) => PrimV::N(*n as int),
        }
    }
}

/// The members of a parsed inner object, as the grammar sees them.
pub open spec fn inner_members_view(v: Seq<(String, PrimValue)>) -> Seq<(Seq<char>, PrimV)> {
    v.map_values(|m: (String, PrimValue)| (m.0@, m.1@))
}

impl View for TopValue {
    type V = TopV;

    open spec fn view(&self) -> TopV {
        match self {
            TopValue::Prim(p) => TopV::Prim(p@),
            TopValue::Obj(ms) => TopV::Obj(inner_members_view(ms@)),
        }
    }
}

/// The members of a parsed top-level object, as the grammar sees them.
pub open spec fn top_members_view(v: Seq<(String, TopValue)>) -> Seq<(Seq<char>, TopV)> {
    v.map_values(|m: (String, TopValue)| (m.0@, m.1@))
}

// ---------------------------------------------------------------------------
// the grammar, as parsing functions on the remaining input

/// Parse a primitive value: a string or a numeral.
pub open spec fn spec_parse_prim(s: Seq<char>) -> Option<(PrimV, Seq<char>)> {
    if s.len() > 0 && s[0] == '"' {
        match spec_parse_string(s) {
            None => None,
            Some((t, r)) => Some((PrimV::S(t), r)),
        }
    } else {
        match spec_parse_uint(s) {
            None => None,
            Some((v, r)) => Some((PrimV::N(v), r)),
        }
    }
}

/// Parse one `"key": value` member with a primitive value.
pub open spec fn spec_parse_inner_member(s: Seq<char>) -> Option<((Seq<char>, PrimV), Seq<char>)> {
    match spec_parse_string(s) {
        None => None,
        Some((k, r1)) => {
            let r2 = spec_skip_ws(r1);
            if r2.len() > 0 && r2[0] == ':' {
                let r3 = spec_skip_ws(r2.skip(1));
                match spec_parse_prim(r3) {
                    None => None,
                    Some((v, r4)) => Some(((k, v), r4)),
                }
            } else {
                None
            }
        },
    }
}

/// Parse what follows a member inside an object: the closing brace, or a
/// comma and a further member. The length check only states that a member
/// consumes input, which every successful parse does.
pub open spec fn spec_parse_inner_rest(s: Seq<char>) -> Option<
    (Seq<(Seq<char>, PrimV)>, Seq<char>),
>
    decreases s.len(),
{
    let t = spec_skip_ws(s);
    if t.len() > 0 && t[0] == '}' {
        Some((Seq::empty(), t.skip(1)))
    } else if t.len() > 0 && t[0] == ',' {
        let u = spec_skip_ws(t.skip(1));
        match spec_parse_inner_member(u) {
            None => None,
            Some(((k, v), r)) => {
                if r.len() < s.len() {
                    match spec_parse_inner_rest(r) {
                        None => None,
                        Some((ms, r2)) => Some((seq![(k, v)] + ms, r2)),
                    }
                } else {
                    None
                }
            },
        }
    } else {
        None
    }
}

/// Parse an object of primitive members, after its opening brace.
pub open spec fn spec_parse_inner_object(s: Seq<char>) -> Option<
    (Seq<(Seq<char>, PrimV)>, Seq<char>),
> {
    let t = spec_skip_ws(s);
    if t.len() > 0 && t[0] == '}' {
        Some((Seq::empty(), t.skip(1)))
    } else {
        match spec_parse_inner_member(t) {
            None => None,
            Some(((k, v), r)) => match spec_parse_inner_rest(r) {
                None => None,
                Some((ms, r2)) => Some((seq![(k, v)] + ms, r2)),
            },
        }
    }
}

/// Parse a top-level value: an object or a primitive.
pub open spec fn spec_parse_top_value(s: Seq<char>) -> Option<(TopV, Seq<char>)> {
    if s.len() > 0 && s[0] == '{' {
        match spec_parse_inner_object(s.skip(1)) {
            None => None,
            Some((ms, r)) => Some((TopV::Obj(ms), r)),
        }
    } else {
        match spec_parse_prim(s) {
            None => None,
            Some((p, r)) => Some((TopV::Prim(p), r)),
        }
    }
}

/// Parse one `"key": value` member at the top level.
pub open spec fn spec_parse_top_member(s: Seq<char>) -> Option<((Seq<char>, TopV), Seq<char>)> {
    match spec_parse_string(s) {
        None => None,
        Some((k, r1)) => {
            let r2 = spec_skip_ws(r1);
            if r2.len() > 0 && r2[0] == ':' {
                let r3 = spec_skip_ws(r2.skip(1));
                match spec_parse_top_value(r3) {
                    None => None,
                    Some((v, r4)) => Some(((k, v), r4)),
                }
            } else {
                None
            }
        },
    }
}

/// Parse what follows a member at the top level.
pub open spec fn spec_parse_top_rest(s: Seq<char>) -> Option<(Seq<(Seq<char>, TopV)>, Seq<char>)>
    decreases s.len(),
{
    let t = spec_skip_ws(s);
    if t.len() > 0 && t[0] == '}' {
        Some((Seq::empty(), t.skip(1)))
    } else if t.len() > 0 && t[0] == ',' {
        let u = spec_skip_ws(t.skip(1));
        match spec_parse_top_member(u) {
            None => None,
            Some(((k, v), r)) => {
                if r.len() < s.len() {
                    match spec_parse_top_rest(r) {
                        None => None,
                        Some((ms, r2)) => Some((seq![(k, v)] + ms, r2)),
                    }
                } else {
                    None
                }
            },
        }
    } else {
        None
    }
}

/// Parse the top-level object, after its opening brace.
pub open spec fn spec_parse_top_object(s: Seq<char>) -> Option<(Seq<(Seq<char>, TopV)>, Seq<char>)> {
    let t = spec_skip_ws(s);
    if t.len() > 0 && t[0] == '}' {
        Some((Seq::empty(), t.skip(1)))
    } else {
        match spec_parse_top_member(t) {
            None => None,
            Some(((k, v), r)) => match spec_parse_top_rest(r) {
                None => None,
                Some((ms, r2)) => Some((seq![(k, v)] + ms, r2)),
            },
        }
    }
}

/// Parse a whole payload as an envelope: optional whitespace, one
/// top-level object, optional whitespace, end of input.
pub open spec fn spec_parse_envelope(s: Seq<char>) -> Option<Seq<(Seq<char>, TopV)>> {
    let t = spec_skip_ws(s);
    if t.len() > 0 && t[0] == '{' {
        match spec_parse_top_object(t.skip(1)) {
            None => None,
            Some((ms, r)) => {
                if spec_skip_ws(r).len() == 0 {
                    Some(ms)
                } else {
                    None
                }
            },
        }
    } else {
        None
    }
}

// ---------------------------------------------------------------------------
// how the encoder's output parses

/// The text of a primitive value as the encoder writes it.
pub open spec fn prim_text(p: PrimV) -> Seq<char> {
    match p {
        PrimV::S(s) => quote(s),
        PrimV::N(n) => dec_str(n),
    }
}

/// A primitive value the encoder can write: any string; a numeral within
/// the digit bound.
pub open spec fn prim_ok(p: PrimV) -> bool {
    match p {
        PrimV::S(_) => true,
        PrimV::N(n) => 0 <= n && n < pow10(max_numeral_digits()),
    }
}

/// The text of one member as the encoder writes it.
pub open spec fn member_text(k: Seq<char>, p: PrimV) -> Seq<char> {
    quote(k) + seq![':'] + prim_text(p)
}

/// A key as the encoder writes one: plain characters only.
pub open spec fn key_ok(k: Seq<char>) -> bool {
    forall|i: int| 0 <= i < k.len() ==> plain_char(k[i])
}

/// Parsing an encoded primitive yields it back, provided a digit does not
/// immediately follow a numeral.
pub proof fn lemma_parse_prim(p: PrimV, rest: Seq<char>)
    requires
        prim_ok(p),
        p is N ==> rest.len() == 0 || !is_digit(rest[0]),
    ensures
        spec_parse_prim(prim_text(p) + rest) == Some((p, rest)),
{
    let s = prim_text(p) + rest;
    match p {
        PrimV::S(c) => {
            assert(s =~= quote(c) + rest);
            assert(s[0] == '"');
            lemma_parse_string_round(c, rest);
        },
        PrimV::N(n) => {
            lemma_dec_str_props(n, max_numeral_digits());
            assert(s[0] == dec_str(n)[0]);
            assert(is_digit(s[0]));
            assert(s[0] != '"');
            lemma_parse_uint_round(n, rest);
        },
    }
}

/// Parsing an encoded member yields it back.
pub proof fn lemma_parse_inner_member(k: Seq<char>, p: PrimV, rest: Seq<char>)
    requires
        key_ok(k),
        prim_ok(p),
        p is N ==> rest.len() == 0 || !is_digit(rest[0]),
    ensures
        spec_parse_inner_member(member_text(k, p) + rest) == Some(((k, p), rest)),
{
    let s = member_text(k, p) + rest;
    let r1 = seq![':'] + prim_text(p) + rest;
    assert(s =~= quote(k) + r1);
    lemma_parse_string_round(k, r1);
    assert(r1[0] == ':');
    lemma_skip_ws_id(r1);
    let r3in = prim_text(p) + rest;
    assert(r1.skip(1) =~= r3in);
    assert(r3in.len() > 0 && !crate::jsontext::is_json_ws(r3in[0])) by {
        match p {
            PrimV::S(c) => {
                assert(r3in[0] == '"');
            },
            PrimV::N(n) => {
                lemma_dec_str_props(n, max_numeral_digits());
                assert(r3in[0] == dec_str(n)[0]);
                assert(is_digit(r3in[0]));
            },
        }
    }
    lemma_skip_ws_id(r3in);
    lemma_parse_prim(p, rest);
}

/// Parsing an encoded two-member object, after its opening brace, yields
/// its two members. The encoder writes the members without whitespace,
/// separated by one comma and closed by one brace.
pub proof fn lemma_parse_inner_object2(
    k1: Seq<char>,
    p1: PrimV,
    k2: Seq<char>,
    p2: PrimV,
    rest: Seq<char>,
)
    requires
        key_ok(k1),
        key_ok(k2),
        prim_ok(p1),
        prim_ok(p2),
    ensures
        spec_parse_inner_object(
            member_text(k1, p1) + seq![','] + member_text(k2, p2) + seq!['}'] + rest,
        ) == Some((seq![(k1, p1), (k2, p2)], rest)),
{
    let s = member_text(k1, p1) + seq![','] + member_text(k2, p2) + seq!['}'] + rest;
    let r = seq![','] + member_text(k2, p2) + seq!['}'] + rest;
    assert(s =~= member_text(k1, p1) + r);
    assert(s.len() > 0 && s[0] == '"' && !crate::jsontext::is_json_ws(s[0]));
    lemma_skip_ws_id(s);
    lemma_parse_inner_member(k1, p1, r);
    assert(spec_parse_inner_member(s) == Some(((k1, p1), r)));
    // the rest after the first member: a comma and the second member
    lemma_skip_ws_id(r);
    assert(r[0] == ',');
    let u = member_text(k2, p2) + seq!['}'] + rest;
    assert(r.skip(1) =~= u);
    assert(u.len() > 0 && u[0] == '"' && !crate::jsontext::is_json_ws(u[0]));
    lemma_skip_ws_id(u);
    let r2 = seq!['}'] + rest;
    assert(u =~= member_text(k2, p2) + r2);
    lemma_parse_inner_member(k2, p2, r2);
    assert(spec_parse_inner_member(u) == Some(((k2, p2), r2)));
    assert(r2.len() < r.len());
    // after the second member: the closing brace
    lemma_skip_ws_id(r2);
    assert(r2[0] == '}');
    assert(r2.skip(1) =~= rest);
    assert(spec_parse_inner_rest(r2) == Some((Seq::<(Seq<char>, PrimV)>::empty(), rest)));
    assert(spec_parse_inner_rest(r) == Some((seq![(k2, p2)], rest))) by {
        assert(seq![(k2, p2)] + Seq::<(Seq<char>, PrimV)>::empty() =~= seq![(k2, p2)]);
    }
    assert(seq![(k1, p1)] + seq![(k2, p2)] =~= seq![(k1, p1), (k2, p2)]);
}

/// Parsing an encoded envelope — one top-level member whose value is a
/// two-member object, no whitespace — yields exactly that structure.
pub proof fn lemma_parse_envelope_obj2(
    k: Seq<char>,
    k1: Seq<char>,
    p1: PrimV,
    k2: Seq<char>,
    p2: PrimV,
)
    requires
        key_ok(k),
        key_ok(k1),
        key_ok(k2),
        prim_ok(p1),
        prim_ok(p2),
    ensures
        spec_parse_envelope(
            seq!['{'] + quote(k) + seq![':'] + seq!['{'] + member_text(k1, p1) + seq![',']
                + member_text(k2, p2) + seq!['}'] + seq!['}'],
        ) == Some(seq![(k, TopV::Obj(seq![(k1, p1), (k2, p2)]))]),
{
    let inner = member_text(k1, p1) + seq![','] + member_text(k2, p2) + seq!['}'];
    let v = seq!['{'] + inner;
    let s = seq!['{'] + quote(k) + seq![':'] + v + seq!['}'];
    assert(seq!['{'] + quote(k) + seq![':'] + seq!['{'] + member_text(k1, p1) + seq![',']
        + member_text(k2, p2) + seq!['}'] + seq!['}'] =~= s);
    assert(s[0] == '{' && !crate::jsontext::is_json_ws(s[0]));
    lemma_skip_ws_id(s);
    let u = quote(k) + seq![':'] + v + seq!['}'];
    assert(s.skip(1) =~= u);
    // the top object: one member, then the closing brace
    assert(u[0] == '"' && !crate::jsontext::is_json_ws(u[0]));
    lemma_skip_ws_id(u);
    let r1 = seq![':'] + v + seq!['}'];
    assert(u =~= quote(k) + r1);
    lemma_parse_string_round(k, r1);
    assert(r1[0] == ':');
    lemma_skip_ws_id(r1);
    let r3 = v + seq!['}'];
    assert(r1.skip(1) =~= r3);
    assert(r3[0] == '{' && !crate::jsontext::is_json_ws(r3[0]));
    lemma_skip_ws_id(r3);
    // its value: the inner object
    assert(r3.skip(1) =~= inner + seq!['}']);
    assert(inner + seq!['}'] =~= member_text(k1, p1) + seq![','] + member_text(k2, p2) + seq!['}']
        + seq!['}']);
    lemma_parse_inner_object2(k1, p1, k2, p2, seq!['}']);
    let obj = TopV::Obj(seq![(k1, p1), (k2, p2)]);
    assert(spec_parse_top_value(r3) == Some((obj, seq!['}'])));
    assert(spec_parse_top_member(u) == Some(((k, obj), seq!['}'])));
    // after the member: the closing brace, then the end of the input
    let r4 = seq!['}'];
    lemma_skip_ws_id(r4);
    assert(r4[0] == '}');
    assert(r4.skip(1) =~= Seq::<char>::empty());
    assert(spec_parse_top_rest(r4) == Some((Seq::<(Seq<char>, TopV)>::empty(), Seq::<char>::empty())));
    assert(spec_parse_top_object(u) == Some((seq![(k, obj)], Seq::<char>::empty()))) by {
        assert(seq![(k, obj)] + Seq::<(Seq<char>, TopV)>::empty() =~= seq![(k, obj)]);
    }
    lemma_skip_ws_id(Seq::<char>::empty());
}

// ---------------------------------------------------------------------------
// executable counterparts

/// Prepending already-parsed inner members to a parse outcome.
pub open spec fn opt_prepend_inner(
    pre: Seq<(Seq<char>, PrimV)>,
    o: Option<(Seq<(Seq<char>, PrimV)>, Seq<char>)>,
) -> Option<(Seq<(Seq<char>, PrimV)>, Seq<char>)> {
    match o {
        Some((ms, r)) => Some((pre + ms, r)),
        None => None,
    }
}

/// Prepending already-parsed top-level members to a parse outcome.
pub open spec fn opt_prepend_top(
    pre: Seq<(Seq<char>, TopV)>,
    o: Option<(Seq<(Seq<char>, TopV)>, Seq<char>)>,
) -> Option<(Seq<(Seq<char>, TopV)>, Seq<char>)> {
    match o {
        Some((ms, r)) => Some((pre + ms, r)),
        None => None,
    }
}

/// Parse a primitive value at `i`, as [`spec_parse_prim`] does.
#[verifier::loop_isolation(false)]
pub(crate) fn parse_prim_at(v: &Vec<char>, i: usize) -> (r: Option<(PrimValue, usize)>)
    requires
        i <= v@.len(),
    ensures
        match r {
            Some((p, j)) => {
                &&& i < j <= v@.len()
                &&& spec_parse_prim(v@.skip(i as int)) == Some((p@, v@.skip(j as int)))
            },
            None => spec_parse_prim(v@.skip(i as int)) is None,
        },
{
    proof {
        if v@.skip(i as int).len() > 0 {
            assert(v@.skip(i as int)[0] == v@[i as int]);
        }
    }
    if i < v.len() && v[i] == '"' {
        match parse_string_at(v, i) {
            Some((s, j)) => Some((PrimValue::S(s), j)),
            None => None,
        }
    } else {
        match parse_uint_at(v, i) {
            Some((n, j)) => Some((PrimValue::N(n), j)),
            None => None,
        }
    }
}

/// Parse one inner member at `i`, as [`spec_parse_inner_member`] does.
pub(crate) fn parse_inner_member_at(v: &Vec<char>, i: usize) -> (r: Option<
    ((String, PrimValue), usize),
>)
    requires
        i <= v@.len(),
    ensures
        match r {
            Some(((k, p), j)) => {
                &&& i < j <= v@.len()
                &&& spec_parse_inner_member(v@.skip(i as int)) == Some(((k@, p@), v@.skip(j as int)))
            },
            None => spec_parse_inner_member(v@.skip(i as int)) is None,
        },
{
    let key = match parse_string_at(v, i) {
        None => {
            return None;
        },
        Some(kj) => kj,
    };
    let (k, j1) = key;
    let j2 = skip_ws_at(v, j1);
    if j2 >= v.len() || v[j2] != ':' {
        proof {
            if v@.skip(j2 as int).len() > 0 {
                assert(v@.skip(j2 as int)[0] == v@[j2 as int]);
            }
        }
        return None;
    }
    proof {
        assert(v@.skip(j2 as int)[0] == ':');
        assert(v@.skip(j2 as int).skip(1) =~= v@.skip(j2 as int + 1));
    }
    let j3 = skip_ws_at(v, j2 + 1);
    match parse_prim_at(v, j3) {
        None => None,
        Some((p, j4)) => Some(((k, p), j4)),
    }
}

/// Parse an inner object after its opening brace, as
/// [`spec_parse_inner_object`] does.
#[verifier::loop_isolation(false)]
pub(crate) fn parse_inner_object_at(v: &Vec<char>, i: usize) -> (r: Option<
    (Vec<(String, PrimValue)>, usize),
>)
    requires
        i <= v@.len(),
    ensures
        match r {
            Some((ms, j)) => {
                &&& i < j <= v@.len()
                &&& spec_parse_inner_object(v@.skip(i as int)) == Some(
                    (inner_members_view(ms@), v@.skip(j as int)),
                )
            },
            None => spec_parse_inner_object(v@.skip(i as int)) is None,
        },
{
    let t0 = skip_ws_at(v, i);
    if t0 < v.len() && v[t0] == '}' {
        proof {
            assert(v@.skip(t0 as int)[0] == '}');
            assert(v@.skip(t0 as int).skip(1) =~= v@.skip(t0 as int + 1));
            assert(inner_members_view(Seq::<(String, PrimValue)>::empty())
                =~= Seq::<(Seq<char>, PrimV)>::empty());
        }
        let ms: Vec<(String, PrimValue)> = Vec::new();
        return Some((ms, t0 + 1));
    }
    proof {
        if v@.skip(t0 as int).len() > 0 {
            assert(v@.skip(t0 as int)[0] == v@[t0 as int]);
        }
    }
    let first = match parse_inner_member_at(v, t0) {
        None => {
            return None;
        },
        Some(mj) => mj,
    };
    let (m0, j0) = first;
    let mut ms: Vec<(String, PrimValue)> = Vec::new();
    let ghost m0v = (m0.0@, m0.1@);
    ms.push(m0);
    let mut j = j0;
    proof {
        assert(inner_members_view(ms@) =~= seq![m0v]);
        assert(spec_parse_inner_object(v@.skip(i as int)) == opt_prepend_inner(
            seq![m0v],
            spec_parse_inner_rest(v@.skip(j as int)),
        ));
    }
    loop
        invariant
            i < j <= v@.len(),
            spec_parse_inner_object(v@.skip(i as int)) == opt_prepend_inner(
                inner_members_view(ms@),
                spec_parse_inner_rest(v@.skip(j as int)),
            ),
        decreases v@.len() - j,
    {
        let t = skip_ws_at(v, j);
        if t >= v.len() {
            assert(spec_parse_inner_rest(v@.skip(j as int)) is None);
            return None;
        }
        let c = v[t];
        assert(v@.skip(t as int)[0] == c);
        if c == '}' {
            proof {
                assert(v@.skip(t as int).skip(1) =~= v@.skip(t as int + 1));
                assert(spec_parse_inner_rest(v@.skip(j as int)) == Some(
                    (Seq::<(Seq<char>, PrimV)>::empty(), v@.skip(t as int + 1)),
                ));
                assert(inner_members_view(ms@) + Seq::<(Seq<char>, PrimV)>::empty()
                    =~= inner_members_view(ms@));
            }
            return Some((ms, t + 1));
        } else if c == ',' {
            proof {
                assert(v@.skip(t as int).skip(1) =~= v@.skip(t as int + 1));
            }
            let u = skip_ws_at(v, t + 1);
            match parse_inner_member_at(v, u) {
                None => {
                    assert(spec_parse_inner_rest(v@.skip(j as int)) is None);
                    return None;
                },
                Some((m, jm)) => {
                    proof {
                        let ghost mv = (m.0@, m.1@);
                        assert(v@.skip(jm as int).len() < v@.skip(j as int).len());
                        assert(spec_parse_inner_rest(v@.skip(j as int)) == opt_prepend_inner(
                            seq![mv],
                            spec_parse_inner_rest(v@.skip(jm as int)),
                        ));
                        lemma_opt_prepend_inner_chain(
                            inner_members_view(ms@),
                            mv,
                            spec_parse_inner_rest(v@.skip(jm as int)),
                        );
                        assert(inner_members_view(ms@.push(m)) =~= inner_members_view(
                            ms@,
                        ).push(mv));
                    }
                    ms.push(m);
                    j = jm;
                },
            }
        } else {
            assert(spec_parse_inner_rest(v@.skip(j as int)) is None);
            return None;
        }
    }
}

/// Appending one parsed inner member to the front of what follows.
proof fn lemma_opt_prepend_inner_chain(
    pre: Seq<(Seq<char>, PrimV)>,
    m: (Seq<char>, PrimV),
    o: Option<(Seq<(Seq<char>, PrimV)>, Seq<char>)>,
)
    ensures
        opt_prepend_inner(pre, opt_prepend_inner(seq![m], o)) == opt_prepend_inner(pre.push(m), o),
{
    match o {
        Some((ms, r)) => {
            assert(pre + (seq![m] + ms) =~= pre.push(m) + ms);
        },
        None => {},
    }
}

/// Parse a top-level value at `i`, as [`spec_parse_top_value`] does.
#[verifier::loop_isolation(false)]
pub(crate) fn parse_top_value_at(v: &Vec<char>, i: usize) -> (r: Option<(TopValue, usize)>)
    requires
        i <= v@.len(),
    ensures
        match r {
            Some((tv, j)) => {
                &&& i < j <= v@.len()
                &&& spec_parse_top_value(v@.skip(i as int)) == Some((tv@, v@.skip(j as int)))
            },
            None => spec_parse_top_value(v@.skip(i as int)) is None,
        },
{
    proof {
        if v@.skip(i as int).len() > 0 {
            assert(v@.skip(i as int)[0] == v@[i as int]);
        }
    }
    if i < v.len() && v[i] == '{' {
        proof {
            assert(v@.skip(i as int).skip(1) =~= v@.skip(i as int + 1));
        }
        match parse_inner_object_at(v, i + 1) {
            Some((ms, j)) => Some((TopValue::Obj(ms), j)),
            None => None,
        }
    } else {
        match parse_prim_at(v, i) {
            Some((p, j)) => Some((TopValue::Prim(p), j)),
            None => None,
        }
    }
}

/// Parse one top-level member at `i`, as [`spec_parse_top_member`] does.
pub(crate) fn parse_top_member_at(v: &Vec<char>, i: usize) -> (r: Option<
    ((String, TopValue), usize),
>)
    requires
        i <= v@.len(),
    ensures
        match r {
            Some(((k, tv), j)) => {
                &&& i < j <= v@.len()
                &&& spec_parse_top_member(v@.skip(i as int)) == Some(((k@, tv@), v@.skip(j as int)))
            },
            None => spec_parse_top_member(v@.skip(i as int)) is None,
        },
{
    let key = match parse_string_at(v, i) {
        None => {
            return None;
        },
        Some(kj) => kj,
    };
    let (k, j1) = key;
    let j2 = skip_ws_at(v, j1);
    if j2 >= v.len() || v[j2] != ':' {
        proof {
            if v@.skip(j2 as int).len() > 0 {
                assert(v@.skip(j2 as int)[0] == v@[j2 as int]);
            }
        }
        return None;
    }
    proof {
        assert(v@.skip(j2 as int)[0] == ':');
        assert(v@.skip(j2 as int).skip(1) =~= v@.skip(j2 as int + 1));
    }
    let j3 = skip_ws_at(v, j2 + 1);
    match parse_top_value_at(v, j3) {
        None => None,
        Some((tv, j4)) => Some(((k, tv), j4)),
    }
}

/// Parse the top-level object after its opening brace, as
/// [`spec_parse_top_object`] does.
#[verifier::loop_isolation(false)]
pub(crate) fn parse_top_object_at(v: &Vec<char>, i: usize) -> (r: Option<
    (Vec<(String, TopValue)>, usize),
>)
    requires
        i <= v@.len(),
    ensures
        match r {
            Some((ms, j)) => {
                &&& i < j <= v@.len()
                &&& spec_parse_top_object(v@.skip(i as int)) == Some(
                    (top_members_view(ms@), v@.skip(j as int)),
                )
            },
            None => spec_parse_top_object(v@.skip(i as int)) is None,
        },
{
    let t0 = skip_ws_at(v, i);
    if t0 < v.len() && v[t0] == '}' {
        proof {
            assert(v@.skip(t0 as int)[0] == '}');
            assert(v@.skip(t0 as int).skip(1) =~= v@.skip(t0 as int + 1));
            assert(top_members_view(Seq::<(String, TopValue)>::empty())
                =~= Seq::<(Seq<char>, TopV)>::empty());
        }
        let ms: Vec<(String, TopValue)> = Vec::new();
        return Some((ms, t0 + 1));
    }
    proof {
        if v@.skip(t0 as int).len() > 0 {
            assert(v@.skip(t0 as int)[0] == v@[t0 as int]);
        }
    }
    let first = match parse_top_member_at(v, t0) {
        None => {
            return None;
        },
        Some(mj) => mj,
    };
    let (m0, j0) = first;
    let mut ms: Vec<(String, TopValue)> = Vec::new();
    let ghost m0v = (m0.0@, m0.1@);
    ms.push(m0);
    let mut j = j0;
    proof {
        assert(top_members_view(ms@) =~= seq![m0v]);
        assert(spec_parse_top_object(v@.skip(i as int)) == opt_prepend_top(
            seq![m0v],
            spec_parse_top_rest(v@.skip(j as int)),
        ));
    }
    loop
        invariant
            i < j <= v@.len(),
            spec_parse_top_object(v@.skip(i as int)) == opt_prepend_top(
                top_members_view(ms@),
                spec_parse_top_rest(v@.skip(j as int)),
            ),
        decreases v@.len() - j,
    {
        let t = skip_ws_at(v, j);
        if t >= v.len() {
            assert(spec_parse_top_rest(v@.skip(j as int)) is None);
            return None;
        }
        let c = v[t];
        assert(v@.skip(t as int)[0] == c);
        if c == '}' {
            proof {
                assert(v@.skip(t as int).skip(1) =~= v@.skip(t as int + 1));
                assert(spec_parse_top_rest(v@.skip(j as int)) == Some(
                    (Seq::<(Seq<char>, TopV)>::empty(), v@.skip(t as int + 1)),
                ));
                assert(top_members_view(ms@) + Seq::<(Seq<char>, TopV)>::empty()
                    =~= top_members_view(ms@));
            }
            return Some((ms, t + 1));
        } else if c == ',' {
            proof {
                assert(v@.skip(t as int).skip(1) =~= v@.skip(t as int + 1));
            }
            let u = skip_ws_at(v, t + 1);
            match parse_top_member_at(v, u) {
                None => {
                    assert(spec_parse_top_rest(v@.skip(j as int)) is None);
                    return None;
                },
                Some((m, jm)) => {
                    proof {
                        let ghost mv = (m.0@, m.1@);
                        assert(v@.skip(jm as int).len() < v@.skip(j as int).len());
                        assert(spec_parse_top_rest(v@.skip(j as int)) == opt_prepend_top(
                            seq![mv],
                            spec_parse_top_rest(v@.skip(jm as int)),
                        ));
                        lemma_opt_prepend_top_chain(
                            top_members_view(ms@),
                            mv,
                            spec_parse_top_rest(v@.skip(jm as int)),
                        );
                        assert(top_members_view(ms@.push(m)) =~= top_members_view(ms@).push(mv));
                    }
                    ms.push(m);
                    j = jm;
                },
            }
        } else {
            assert(spec_parse_top_rest(v@.skip(j as int)) is None);
            return None;
        }
    }
}

/// Appending one parsed top-level member to the front of what follows.
proof fn lemma_opt_prepend_top_chain(
    pre: Seq<(Seq<char>, TopV)>,
    m: (Seq<char>, TopV),
    o: Option<(Seq<(Seq<char>, TopV)>, Seq<char>)>,
)
    ensures
        opt_prepend_top(pre, opt_prepend_top(seq![m], o)) == opt_prepend_top(pre.push(m), o),
{
    match o {
        Some((ms, r)) => {
            assert(pre + (seq![m] + ms) =~= pre.push(m) + ms);
        },
        None => {},
    }
}

/// Parse a whole payload as an envelope, as [`spec_parse_envelope`] does.
#[verifier::loop_isolation(false)]
pub(crate) fn parse_envelope(v: &Vec<char>) -> (r: Option<Vec<(String, TopValue)>>)
    ensures
        match r {
            Some(ms) => spec_parse_envelope(v@) == Some(top_members_view(ms@)),
            None => spec_parse_envelope(v@) is None,
        },
{
    proof {
        assert(v@.skip(0) =~= v@);
    }
    let t = skip_ws_at(v, 0);
    if t >= v.len() || v[t] != '{' {
        proof {
            if v@.skip(t as int).len() > 0 {
                assert(v@.skip(t as int)[0] == v@[t as int]);
            }
        }
        return None;
    }
    proof {
        assert(v@.skip(t as int)[0] == '{');
        assert(v@.skip(t as int).skip(1) =~= v@.skip(t as int + 1));
    }
    match parse_top_object_at(v, t + 1) {
        None => None,
        Some((ms, j)) => {
            let t2 = skip_ws_at(v, j);
            if t2 == v.len() {
                assert(v@.skip(t2 as int).len() == 0);
                Some(ms)
            } else {
                assert(v@.skip(t2 as int).len() > 0);
                None
            }
        },
    }
}

} // verus!
