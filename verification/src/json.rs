//! A small JSON codec for the exchange's wire protocol.
//!
//! Inbound frames are JSON text; `parse_json` turns the raw bytes into a
//! `JsonValue` tree, and its behaviour is pinned down exactly by the spec-level
//! parser over `JsonModel`. Strings are kept as their unescaped byte content;
//! numbers are kept as their raw token bytes and interpreted on demand by
//! `to_u64` / `to_i64`.

use vstd::prelude::*;

verus! {

/// A parsed JSON document node.
#[derive(Debug, PartialEq, Eq)]
pub enum JsonValue {
    Null,
    Bool(bool),
    /// Raw number token, e.g. b"-12.5e3".
    Num(Vec<u8>),
    /// Unescaped string content bytes.
    Str(Vec<u8>),
    Arr(Vec<JsonValue>),
    Obj(Vec<(Vec<u8>, JsonValue)>),
}

/// The mathematical model of a JSON node.
pub enum JsonModel {
    Null,
    Bool(bool),
    Num(Seq<u8>),
    Str(Seq<u8>),
    Arr(Seq<JsonModel>),
    Obj(Seq<(Seq<u8>, JsonModel)>),
}

pub open spec fn items_model(items: Seq<JsonValue>) -> Seq<JsonModel>
    decreases items,
{
    Seq::new(
        items.len(),
        |i: int|
            if 0 <= i < items.len() {
                items[i].model()
            } else {
                JsonModel::Null
            },
    )
}

pub open spec fn pairs_model(pairs: Seq<(Vec<u8>, JsonValue)>) -> Seq<(Seq<u8>, JsonModel)>
    decreases pairs,
{
    Seq::new(
        pairs.len(),
        |i: int|
            if 0 <= i < pairs.len() {
                (pairs[i].0@, pairs[i].1.model())
            } else {
                (Seq::<u8>::empty(), JsonModel::Null)
            },
    )
}

impl JsonValue {
    /// The model of this node: the same tree over `Seq` instead of `Vec`.
    pub open spec fn model(&self) -> JsonModel
        decreases self,
    {
        match self {
            JsonValue::Null => JsonModel::Null,
            JsonValue::Bool(b) => JsonModel::Bool(*b),
            JsonValue::Num(tok) => JsonModel::Num(tok@),
            JsonValue::Str(content) => JsonModel::Str(content@),
            JsonValue::Arr(items) => JsonModel::Arr(items_model(items@)),
            JsonValue::Obj(pairs) => JsonModel::Obj(pairs_model(pairs@)),
        }
    }
}

/// JSON insignificant whitespace: space, tab, line feed, carriage return.
pub open spec fn is_ws_byte(b: u8) -> bool {
    b == 32 || b == 9 || b == 10 || b == 13
}

/// Position of the first non-whitespace byte at or after `i`.
pub open spec fn spec_skip_ws(s: Seq<u8>, i: int) -> int
    decreases s.len() - i,
{
    if 0 <= i < s.len() && is_ws_byte(s[i]) {
        spec_skip_ws(s, i + 1)
    } else {
        i
    }
}

fn skip_ws(s: &[u8], i: usize) -> (r: usize)
    requires
        i <= s@.len(),
    ensures
        r as int == spec_skip_ws(s@, i as int),
        i <= r <= s@.len(),
{
    let mut j = i;
    while j < s.len() && (s[j] == 32 || s[j] == 9 || s[j] == 10 || s[j] == 13)
        invariant
            i <= j <= s@.len(),
            spec_skip_ws(s@, i as int) == spec_skip_ws(s@, j as int),
        decreases s@.len() - j,
    {
        j = j + 1;
    }
    j
}

/// The replacement byte for a single-character escape, if the escape is one
/// this codec supports (`\uXXXX` is not).
pub open spec fn spec_unescape_byte(b: u8) -> Option<u8> {
    if b == 34 {
        Some(34u8)
    } else if b == 92 {
        Some(92u8)
    } else if b == 47 {
        Some(47u8)
    } else if b == 110 {
        Some(10u8)
    } else if b == 116 {
        Some(9u8)
    } else if b == 114 {
        Some(13u8)
    } else if b == 98 {
        Some(8u8)
    } else if b == 102 {
        Some(12u8)
    } else {
        None
    }
}

fn unescape_byte(b: u8) -> (r: Option<u8>)
    ensures
        r == spec_unescape_byte(b),
{
    match b {
        34 => Some(34),
        92 => Some(92),
        47 => Some(47),
        110 => Some(10),
        116 => Some(9),
        114 => Some(13),
        98 => Some(8),
        102 => Some(12),
        _ => None,
    }
}

/// Parses the body of a JSON string, starting just after the opening quote;
/// yields the unescaped content and the position just after the closing quote.
pub open spec fn spec_parse_string_body(s: Seq<u8>, i: int) -> Option<(Seq<u8>, int)>
    decreases s.len() - i,
{
    if !(0 <= i < s.len()) {
        None
    } else if s[i] == 34 {
        Some((Seq::<u8>::empty(), i + 1))
    } else if s[i] == 92 {
        if i + 1 < s.len() {
            match spec_unescape_byte(s[i + 1]) {
                Some(c) => match spec_parse_string_body(s, i + 2) {
                    Some((rest, j)) => Some((seq![c] + rest, j)),
                    None => None,
                },
                None => None,
            }
        } else {
            None
        }
    } else if s[i] < 32 {
        None
    } else {
        match spec_parse_string_body(s, i + 1) {
            Some((rest, j)) => Some((seq![s[i]] + rest, j)),
            None => None,
        }
    }
}

fn parse_string_body(s: &[u8], i: usize) -> (r: Option<(Vec<u8>, usize)>)
    requires
        i <= s@.len(),
    ensures
        (match (r, spec_parse_string_body(s@, i as int)) {
            (Some((content, j)), Some((mc, mj))) => content@ == mc && j as int == mj && j <= s@.len(),
            (None, None) => true,
            _ => false,
        }),
{
    let mut acc: Vec<u8> = Vec::new();
    let mut cur = i;
    loop
        invariant
            i <= cur <= s@.len(),
            (match spec_parse_string_body(s@, cur as int) {
                Some((rest, j)) => spec_parse_string_body(s@, i as int) == Some::<(Seq<u8>, int)>(
                    (acc@ + rest, j),
                ),
                None => spec_parse_string_body(s@, i as int) is None,
            }),
        decreases s@.len() - cur,
    {
        if cur >= s.len() {
            return None;
        }
        let b = s[cur];
        if b == 34 {
            proof {
                assert(acc@ + Seq::<u8>::empty() =~= acc@);
            }
            return Some((acc, cur + 1));
        }
        if b == 92 {
            if cur + 1 >= s.len() {
                return None;
            }
            match unescape_byte(s[cur + 1]) {
                Some(c) => {
                    proof {
                        if let Some((rest2, j2)) = spec_parse_string_body(s@, cur + 2) {
                            assert(acc@ + (seq![c] + rest2) =~= acc@.push(c) + rest2);
                        }
                    }
                    acc.push(c);
                    cur = cur + 2;
                },
                None => {
                    return None;
                },
            }
        } else if b < 32 {
            return None;
        } else {
            proof {
                if let Some((rest2, j2)) = spec_parse_string_body(s@, cur + 1) {
                    assert(acc@ + (seq![b] + rest2) =~= acc@.push(b) + rest2);
                }
            }
            acc.push(b);
            cur = cur + 1;
        }
    }
}

/// A byte that can occur in a JSON number token.
pub open spec fn is_num_byte(b: u8) -> bool {
    (48 <= b <= 57) || b == 45 || b == 43 || b == 46 || b == 101 || b == 69
}

/// Position just after the maximal run of number-token bytes starting at `i`.
pub open spec fn spec_scan_num(s: Seq<u8>, i: int) -> int
    decreases s.len() - i,
{
    if 0 <= i < s.len() && is_num_byte(s[i]) {
        spec_scan_num(s, i + 1)
    } else {
        i
    }
}

fn scan_num(s: &[u8], i: usize) -> (r: usize)
    requires
        i <= s@.len(),
    ensures
        r as int == spec_scan_num(s@, i as int),
        i <= r <= s@.len(),
{
    let mut j = i;
    while j < s.len() && ((48 <= s[j] && s[j] <= 57) || s[j] == 45 || s[j] == 43 || s[j] == 46
        || s[j] == 101 || s[j] == 69)
        invariant
            i <= j <= s@.len(),
            spec_scan_num(s@, i as int) == spec_scan_num(s@, j as int),
        decreases s@.len() - j,
    {
        j = j + 1;
    }
    j
}

/// Parses one JSON value starting at `i` (leading whitespace allowed); `fuel`
/// bounds the recursion and is ample for any document (see `spec_parse_json`).
pub open spec fn spec_parse_value(s: Seq<u8>, i: int, fuel: nat) -> Option<(JsonModel, int)>
    decreases fuel,
{
    if fuel == 0 {
        None
    } else {
        let j = spec_skip_ws(s, i);
        if !(0 <= j < s.len()) {
            None
        } else if s[j] == 123 {
            match spec_parse_obj_items(s, j + 1, (fuel - 1) as nat) {
                Some((ps, k)) => Some((JsonModel::Obj(ps), k)),
                None => None,
            }
        } else if s[j] == 91 {
            match spec_parse_arr_items(s, j + 1, (fuel - 1) as nat) {
                Some((vs, k)) => Some((JsonModel::Arr(vs), k)),
                None => None,
            }
        } else if s[j] == 34 {
            match spec_parse_string_body(s, j + 1) {
                Some((content, k)) => Some((JsonModel::Str(content), k)),
                None => None,
            }
        } else if s[j] == 116 {
            if j + 4 <= s.len() && s[j + 1] == 114 && s[j + 2] == 117 && s[j + 3] == 101 {
                Some((JsonModel::Bool(true), j + 4))
            } else {
                None
            }
        } else if s[j] == 102 {
            if j + 5 <= s.len() && s[j + 1] == 97 && s[j + 2] == 108 && s[j + 3] == 115 && s[j + 4]
                == 101 {
                Some((JsonModel::Bool(false), j + 5))
            } else {
                None
            }
        } else if s[j] == 110 {
            if j + 4 <= s.len() && s[j + 1] == 117 && s[j + 2] == 108 && s[j + 3] == 108 {
                Some((JsonModel::Null, j + 4))
            } else {
                None
            }
        } else if s[j] == 45 || (48 <= s[j] && s[j] <= 57) {
            let e = spec_scan_num(s, j);
            Some((JsonModel::Num(s.subrange(j, e)), e))
        } else {
            None
        }
    }
}

/// Parses the items of an array, starting just after the opening bracket.
pub open spec fn spec_parse_arr_items(s: Seq<u8>, i: int, fuel: nat) -> Option<
    (Seq<JsonModel>, int),
>
    decreases fuel,
{
    if fuel == 0 {
        None
    } else {
        let j = spec_skip_ws(s, i);
        if !(0 <= j < s.len()) {
            None
        } else if s[j] == 93 {
            Some((Seq::<JsonModel>::empty(), j + 1))
        } else {
            match spec_parse_value(s, j, (fuel - 1) as nat) {
                None => None,
                Some((v, k)) => {
                    let k2 = spec_skip_ws(s, k);
                    if !(0 <= k2 < s.len()) {
                        None
                    } else if s[k2] == 44 {
                        match spec_parse_arr_items(s, k2 + 1, (fuel - 1) as nat) {
                            Some((rest, e)) => Some((seq![v] + rest, e)),
                            None => None,
                        }
                    } else if s[k2] == 93 {
                        Some((seq![v], k2 + 1))
                    } else {
                        None
                    }
                },
            }
        }
    }
}

/// Parses the members of an object, starting just after the opening brace.
pub open spec fn spec_parse_obj_items(s: Seq<u8>, i: int, fuel: nat) -> Option<
    (Seq<(Seq<u8>, JsonModel)>, int),
>
    decreases fuel,
{
    if fuel == 0 {
        None
    } else {
        let j = spec_skip_ws(s, i);
        if !(0 <= j < s.len()) {
            None
        } else if s[j] == 125 {
            Some((Seq::<(Seq<u8>, JsonModel)>::empty(), j + 1))
        } else if s[j] != 34 {
            None
        } else {
            match spec_parse_string_body(s, j + 1) {
                None => None,
                Some((key, k)) => {
                    let k2 = spec_skip_ws(s, k);
                    if !(0 <= k2 < s.len() && s[k2] == 58) {
                        None
                    } else {
                        match spec_parse_value(s, k2 + 1, (fuel - 1) as nat) {
                            None => None,
                            Some((v, e)) => {
                                let e2 = spec_skip_ws(s, e);
                                if !(0 <= e2 < s.len()) {
                                    None
                                } else if s[e2] == 44 {
                                    match spec_parse_obj_items(s, e2 + 1, (fuel - 1) as nat) {
                                        Some((rest, z)) => Some((seq![(key, v)] + rest, z)),
                                        None => None,
                                    }
                                } else if s[e2] == 125 {
                                    Some((seq![(key, v)], e2 + 1))
                                } else {
                                    None
                                }
                            },
                        }
                    }
                },
            }
        }
    }
}

fn parse_value(s: &[u8], i: usize, fuel: usize) -> (r: Option<(JsonValue, usize)>)
    requires
        i <= s@.len(),
    ensures
        (match (r, spec_parse_value(s@, i as int, fuel as nat)) {
            (Some((v, j)), Some((mv, mj))) => v.model() == mv && j as int == mj && j <= s@.len(),
            (None, None) => true,
            _ => false,
        }),
    decreases fuel,
{
    if fuel == 0 {
        return None;
    }
    let j = skip_ws(s, i);
    if j >= s.len() {
        return None;
    }
    let b = s[j];
    if b == 123 {
        match parse_obj_items(s, j + 1, fuel - 1) {
            Some((ps, k)) => Some((JsonValue::Obj(ps), k)),
            None => None,
        }
    } else if b == 91 {
        match parse_arr_items(s, j + 1, fuel - 1) {
            Some((vs, k)) => Some((JsonValue::Arr(vs), k)),
            None => None,
        }
    } else if b == 34 {
        match parse_string_body(s, j + 1) {
            Some((content, k)) => Some((JsonValue::Str(content), k)),
            None => None,
        }
    } else if b == 116 {
        if s.len() - j >= 4 && s[j + 1] == 114 && s[j + 2] == 117 && s[j + 3] == 101 {
            Some((JsonValue::Bool(true), j + 4))
        } else {
            None
        }
    } else if b == 102 {
        if s.len() - j >= 5 && s[j + 1] == 97 && s[j + 2] == 108 && s[j + 3] == 115 && s[j + 4]
            == 101 {
            Some((JsonValue::Bool(false), j + 5))
        } else {
            None
        }
    } else if b == 110 {
        if s.len() - j >= 4 && s[j + 1] == 117 && s[j + 2] == 108 && s[j + 3] == 108 {
            Some((JsonValue::Null, j + 4))
        } else {
            None
        }
    } else if b == 45 || (48 <= b && b <= 57) {
        let e = scan_num(s, j);
        let mut tok: Vec<u8> = Vec::new();
        let mut p = j;
        while p < e
            invariant
                j <= p <= e <= s@.len(),
                tok@ == s@.subrange(j as int, p as int),
            decreases e - p,
        {
            proof {
                assert(s@.subrange(j as int, p as int).push(s@[p as int]) =~= s@.subrange(
                    j as int,
                    p + 1,
                ));
            }
            tok.push(s[p]);
            p = p + 1;
        }
        Some((JsonValue::Num(tok), e))
    } else {
        None
    }
}

fn parse_arr_items(s: &[u8], i: usize, fuel: usize) -> (r: Option<(Vec<JsonValue>, usize)>)
    requires
        i <= s@.len(),
    ensures
        (match (r, spec_parse_arr_items(s@, i as int, fuel as nat)) {
            (Some((vs, j)), Some((ms, mj))) => items_model(vs@) == ms && j as int == mj && j
                <= s@.len(),
            (None, None) => true,
            _ => false,
        }),
    decreases fuel,
{
    if fuel == 0 {
        return None;
    }
    let j = skip_ws(s, i);
    if j >= s.len() {
        return None;
    }
    if s[j] == 93 {
        proof {
            assert(items_model(Seq::<JsonValue>::empty()) =~= Seq::<JsonModel>::empty());
        }
        return Some((Vec::new(), j + 1));
    }
    match parse_value(s, j, fuel - 1) {
        None => None,
        Some((v, k)) => {
            let k2 = skip_ws(s, k);
            if k2 >= s.len() {
                return None;
            }
            if s[k2] == 44 {
                match parse_arr_items(s, k2 + 1, fuel - 1) {
                    Some((rest, e)) => {
                        let mut vs = rest;
                        vs.insert(0, v);
                        proof {
                            let ghost sv = v.model();
                            if let Some((mrest, me)) = spec_parse_arr_items(
                                s@,
                                k2 + 1,
                                (fuel - 1) as nat,
                            ) {
                                assert(items_model(vs@) =~= seq![sv] + mrest);
                            }
                        }
                        Some((vs, e))
                    },
                    None => None,
                }
            } else if s[k2] == 93 {
                let mut vs: Vec<JsonValue> = Vec::new();
                vs.push(v);
                proof {
                    assert(items_model(vs@) =~= seq![v.model()]);
                }
                Some((vs, k2 + 1))
            } else {
                None
            }
        },
    }
}

fn parse_obj_items(s: &[u8], i: usize, fuel: usize) -> (r: Option<
    (Vec<(Vec<u8>, JsonValue)>, usize),
>)
    requires
        i <= s@.len(),
    ensures
        (match (r, spec_parse_obj_items(s@, i as int, fuel as nat)) {
            (Some((ps, j)), Some((ms, mj))) => pairs_model(ps@) == ms && j as int == mj && j
                <= s@.len(),
            (None, None) => true,
            _ => false,
        }),
    decreases fuel,
{
    if fuel == 0 {
        return None;
    }
    let j = skip_ws(s, i);
    if j >= s.len() {
        return None;
    }
    if s[j] == 125 {
        proof {
            assert(pairs_model(Seq::<(Vec<u8>, JsonValue)>::empty()) =~= Seq::<
                (Seq<u8>, JsonModel),
            >::empty());
        }
        return Some((Vec::new(), j + 1));
    }
    if s[j] != 34 {
        return None;
    }
    match parse_string_body(s, j + 1) {
        None => None,
        Some((key, k)) => {
            let k2 = skip_ws(s, k);
            if k2 >= s.len() || s[k2] != 58 {
                return None;
            }
            match parse_value(s, k2 + 1, fuel - 1) {
                None => None,
                Some((v, e)) => {
                    let e2 = skip_ws(s, e);
                    if e2 >= s.len() {
                        return None;
                    }
                    if s[e2] == 44 {
                        match parse_obj_items(s, e2 + 1, fuel - 1) {
                            Some((rest, z)) => {
                                let ghost key_model = key@;
                                let ghost v_model = v.model();
                                let mut ps = rest;
                                ps.insert(0, (key, v));
                                proof {
                                    if let Some((mrest, mz)) = spec_parse_obj_items(
                                        s@,
                                        e2 + 1,
                                        (fuel - 1) as nat,
                                    ) {
                                        assert(pairs_model(ps@) =~= seq![(key_model, v_model)]
                                            + mrest);
                                    }
                                }
                                Some((ps, z))
                            },
                            None => None,
                        }
                    } else if s[e2] == 125 {
                        let ghost key_model = key@;
                        let ghost v_model = v.model();
                        let mut ps: Vec<(Vec<u8>, JsonValue)> = Vec::new();
                        ps.push((key, v));
                        proof {
                            assert(pairs_model(ps@) =~= seq![(key_model, v_model)]);
                        }
                        Some((ps, e2 + 1))
                    } else {
                        None
                    }
                },
            }
        },
    }
}

/// Ample recursion fuel for a document of `n` bytes: nesting one level deeper,
/// or moving to the next element, always consumes input.
pub open spec fn json_fuel(n: nat) -> nat {
    2 * n + 2
}

/// Documents larger than this are rejected outright.
pub const JSON_MAX_LEN: usize = 0x1000_0000;

/// The parse of a whole document: one value, surrounded only by whitespace.
pub open spec fn spec_parse_json(s: Seq<u8>) -> Option<JsonModel> {
    if s.len() > JSON_MAX_LEN {
        None
    } else {
        match spec_parse_value(s, 0, json_fuel(s.len())) {
            Some((v, j)) => {
                if spec_skip_ws(s, j) == s.len() {
                    Some(v)
                } else {
                    None
                }
            },
            None => None,
        }
    }
}

/// Parses a complete JSON document.
pub fn parse_json(s: &[u8]) -> (r: Option<JsonValue>)
    ensures
        (match (r, spec_parse_json(s@)) {
            (Some(v), Some(m)) => v.model() == m,
            (None, None) => true,
            _ => false,
        }),
{
    if s.len() > JSON_MAX_LEN {
        return None;
    }
    match parse_value(s, 0, 2 * s.len() + 2) {
        Some((v, j)) => {
            let e = skip_ws(s, j);
            if e == s.len() {
                Some(v)
            } else {
                None
            }
        },
        None => None,
    }
}

/// The value of the first member with the given key, if any.
pub open spec fn spec_obj_get(ps: Seq<(Seq<u8>, JsonModel)>, key: Seq<u8>) -> Option<JsonModel>
    decreases ps.len(),
{
    if ps.len() == 0 {
        None
    } else if ps[0].0 == key {
        Some(ps[0].1)
    } else {
        spec_obj_get(ps.skip(1), key)
    }
}

impl JsonValue {
    /// Looks a key up in an object node; `None` for any other node kind or a
    /// missing key.
    pub fn get<'a>(&'a self, key: &[u8]) -> (r: Option<&'a JsonValue>)
        ensures
            (match self.model() {
                JsonModel::Obj(ps) => match (r, spec_obj_get(ps, key@)) {
                    (Some(v), Some(m)) => v.model() == m,
                    (None, None) => true,
                    _ => false,
                },
                _ => r is None,
            }),
    {
        match self {
            JsonValue::Obj(pairs) => {
                let ghost ps = pairs_model(pairs@);
                proof {
                    assert(ps.skip(0) =~= ps);
                }
                let mut i: usize = 0;
                while i < pairs.len()
                    invariant
                        i <= pairs.len(),
                        ps == pairs_model(pairs@),
                        self.model() == JsonModel::Obj(ps),
                        spec_obj_get(ps, key@) == spec_obj_get(ps.skip(i as int), key@),
                    decreases pairs.len() - i,
                {
                    if crate::bytes_eq(pairs[i].0.as_slice(), key) {
                        return Some(&pairs[i].1);
                    }
                    proof {
                        assert(ps.skip(i as int).skip(1) =~= ps.skip(i + 1));
                    }
                    i = i + 1;
                }
                proof {
                    assert(ps.skip(i as int).len() == 0);
                }
                None
            },
            _ => None,
        }
    }

    /// The unescaped content bytes of a string node.
    pub fn as_str_bytes<'a>(&'a self) -> (r: Option<&'a Vec<u8>>)
        ensures
            (match self.model() {
                JsonModel::Str(content) => r is Some && r.unwrap()@ == content,
                _ => r is None,
            }),
    {
        match self {
            JsonValue::Str(content) => Some(content),
            _ => None,
        }
    }

    /// The items of an array node.
    pub fn as_items<'a>(&'a self) -> (r: Option<&'a Vec<JsonValue>>)
        ensures
            (match self.model() {
                JsonModel::Arr(ms) => r is Some && items_model(r.unwrap()@) == ms,
                _ => r is None,
            }),
    {
        match self {
            JsonValue::Arr(items) => Some(items),
            _ => None,
        }
    }

    /// The value of a boolean node.
    pub fn as_bool(&self) -> (r: Option<bool>)
        ensures
            (match self.model() {
                JsonModel::Bool(b) => r == Some(b),
                _ => r is None,
            }),
    {
        match self {
            JsonValue::Bool(b) => Some(*b),
            _ => None,
        }
    }
}

/// All bytes of `s` are decimal digits, and there is at least one.
pub open spec fn is_dec_digits(s: Seq<u8>) -> bool {
    s.len() > 0 && forall|i: int| 0 <= i < s.len() ==> 48 <= #[trigger] s[i] <= 57
}

/// The value of a string of decimal digits.
pub open spec fn dec_val(s: Seq<u8>) -> nat
    decreases s.len(),
{
    if s.len() == 0 {
        0
    } else {
        dec_val(s.drop_last()) * 10 + (if s.last() >= 48 {
            (s.last() - 48) as nat
        } else {
            0
        })
    }
}

proof fn lemma_dec_val_grows(s: Seq<u8>, i: int)
    requires
        0 <= i <= s.len(),
    ensures
        dec_val(s) >= dec_val(s.take(i)),
    decreases s.len() - i,
{
    if i < s.len() {
        assert(s.take(i + 1).drop_last() =~= s.take(i));
        assert(dec_val(s.take(i + 1)) >= dec_val(s.take(i)));
        lemma_dec_val_grows(s, i + 1);
        assert(s.take(s.len() as int) =~= s);
    } else {
        assert(s.take(i) =~= s);
    }
}

/// Reads a number node as a `u64`: the token must be plain decimal digits
/// whose value fits.
pub fn to_u64(value: &JsonValue) -> (r: Option<u64>)
    ensures
        (match value.model() {
            JsonModel::Num(tok) => {
                if is_dec_digits(tok) && dec_val(tok) <= u64::MAX {
                    r == Some(dec_val(tok) as u64)
                } else {
                    r is None
                }
            },
            _ => r is None,
        }),
{
    match value {
        JsonValue::Num(tok) => dec_bytes_to_u64(tok.as_slice()),
        _ => None,
    }
}

/// Reads a number node as an `i64`: an optional leading minus sign followed by
/// decimal digits, the value in range.
pub fn to_i64(value: &JsonValue) -> (r: Option<i64>)
    ensures
        (match value.model() {
            JsonModel::Num(tok) => {
                if is_dec_digits(tok) && dec_val(tok) <= i64::MAX {
                    r == Some(dec_val(tok) as i64)
                } else if tok.len() > 1 && tok[0] == 45 && is_dec_digits(tok.skip(1)) && dec_val(
                    tok.skip(1),
                ) <= i64::MAX as nat + 1 {
                    r == Some((-(dec_val(tok.skip(1)) as int)) as i64)
                } else {
                    r is None
                }
            },
            _ => r is None,
        }),
{
    match value {
        JsonValue::Num(tok) => {
            if tok.len() > 1 && tok[0] == 45 {
                let rest = vstd::slice::slice_subrange(tok.as_slice(), 1, tok.len());
                proof {
                    assert(rest@ =~= tok@.skip(1));
                }
                match dec_bytes_to_u64_bounded(rest, 9223372036854775808u64) {
                    Some(m) => {
                        proof {
                            if is_dec_digits(tok@) {
                                assert(48 <= tok@[0] <= 57);
                            }
                        }
                        if m == 9223372036854775808u64 {
                            Some(i64::MIN)
                        } else {
                            Some(-(m as i64))
                        }
                    },
                    None => None,
                }
            } else {
                match dec_bytes_to_u64_bounded(tok.as_slice(), i64::MAX as u64) {
                    Some(m) => Some(m as i64),
                    None => None,
                }
            }
        },
        _ => None,
    }
}

/// Parses decimal digits into a `u64`; `None` when a byte is not a digit, the
/// run is empty, or the value exceeds `u64::MAX`.
fn dec_bytes_to_u64(s: &[u8]) -> (r: Option<u64>)
    ensures
        (if is_dec_digits(s@) && dec_val(s@) <= u64::MAX {
            r == Some(dec_val(s@) as u64)
        } else {
            r is None
        }),
{
    dec_bytes_to_u64_bounded(s, u64::MAX)
}

/// As `dec_bytes_to_u64`, with an inclusive upper bound on the value.
fn dec_bytes_to_u64_bounded(s: &[u8], bound: u64) -> (r: Option<u64>)
    ensures
        (if is_dec_digits(s@) && dec_val(s@) <= bound {
            r == Some(dec_val(s@) as u64)
        } else {
            r is None
        }),
{
    if s.len() == 0 {
        return None;
    }
    let mut acc: u64 = 0;
    let mut i: usize = 0;
    proof {
        assert(s@.take(0) =~= Seq::<u8>::empty());
    }
    while i < s.len()
        invariant
            i <= s@.len(),
            is_dec_digits(s@.take(i as int)) || i == 0,
            forall|j: int| 0 <= j < i ==> 48 <= #[trigger] s@[j] <= 57,
            acc == dec_val(s@.take(i as int)),
            acc <= bound,
        decreases s@.len() - i,
    {
        let b = s[i];
        if b < 48 || b > 57 {
            return None;
        }
        let d = (b - 48) as u64;
        proof {
            assert(s@.take(i + 1).drop_last() =~= s@.take(i as int));
        }
        if acc > bound / 10 || (acc == bound / 10 && d > bound % 10) {
            proof {
                assert(dec_val(s@.take(i + 1)) > bound);
                lemma_dec_val_grows(s@, i + 1);
            }
            return None;
        }
        acc = acc * 10 + d;
        i = i + 1;
    }
    proof {
        assert(s@.take(i as int) =~= s@);
    }
    Some(acc)
}

} // verus!
