use vstd::prelude::*;

use crate::float_bits::{FloatOrder, compare, compare_spec, float_eq, float_eq_spec, float_le};
use crate::text::{
    chars_of, find_first, find_last, parse_i32, parse_i32_spec, split_once_spec,
    rsplit_once_spec,
};

verus! {

/// Why no connector could be chosen.
#[derive(Debug)]
pub enum ConnectorError {
    NoOutputs,
    Required(Vec<String>),
}

impl ConnectorError {
    /// What the error says to the user.
    pub open spec fn message_text(&self) -> Seq<char> {
        match self {
            ConnectorError::NoOutputs => "fatal: unable to find output."@,
            ConnectorError::Required(connectors) => "fatal: please specify an output. Available outputs: "@
                + crate::text::join_texts(views_of_strings(connectors@), ", "@),
        }
    }

    pub fn message(&self) -> (r: String)
        ensures
            r@ == self.message_text(),
    {
        match self {
            ConnectorError::NoOutputs => "fatal: unable to find output.".to_owned(),
            ConnectorError::Required(connectors) => {
                let mut r = "fatal: please specify an output. Available outputs: ".to_owned();
                crate::text::push_joined(&mut r, connectors, ", ");
                assert(crate::text::string_views(connectors@) =~= views_of_strings(connectors@));
                r
            },
        }
    }
}

/// The characters of each string slice.
pub open spec fn views_of_strs(v: Seq<&str>) -> Seq<Seq<char>> {
    v.map_values(|s: &str| s@)
}

/// The characters of each string.
pub open spec fn views_of_strings(v: Seq<String>) -> Seq<Seq<char>> {
    v.map_values(|s: String| s@)
}

/// The connector to act on: the one given, or else the only one there is.
pub fn resolve_connector(provided: Option<&str>, connectors: &[&str]) -> (r: Result<
    String,
    ConnectorError,
>)
    ensures
        provided matches Some(c) ==> (r matches Ok(s) && s@ == c@),
        provided is None && connectors@.len() == 0 ==> r matches Err(ConnectorError::NoOutputs),
        provided is None && connectors@.len() == 1 ==> (r matches Ok(s) && s@ == connectors@[0]@),
        provided is None && connectors@.len() > 1 ==> (r matches Err(ConnectorError::Required(all))
            && views_of_strings(all@) == views_of_strs(connectors@)),
{
    if let Some(connector) = provided {
        return Ok(connector.to_owned());
    }
    let mut all: Vec<String> = Vec::new();
    let mut i: usize = 0;
    while i < connectors.len()
        invariant
            0 <= i <= connectors@.len(),
            all@.len() == i,
            forall|j: int| 0 <= j < i ==> (#[trigger] all@[j])@ == connectors@[j]@,
        decreases connectors@.len() - i,
    {
        all.push(connectors[i].to_owned());
        i = i + 1;
    }
    assert(views_of_strings(all@) =~= views_of_strs(connectors@));
    if all.len() == 0 {
        Err(ConnectorError::NoOutputs)
    } else if all.len() == 1 {
        Ok(connectors[0].to_owned())
    } else {
        Err(ConnectorError::Required(all))
    }
}

/// Two `i32` values spelled by two strings, where both parse.
pub open spec fn parse_pair(parts: Option<(Seq<char>, Seq<char>)>) -> Option<(int, int)> {
    match parts {
        Some((a, b)) => match (parse_i32_spec(a), parse_i32_spec(b)) {
            (Some(x), Some(y)) => Some((x, y)),
            _ => None,
        },
        None => None,
    }
}

/// `WIDTHxHEIGHT`, split at the first `x`.
pub open spec fn parse_resolution_spec(s: Seq<char>) -> Option<(int, int)> {
    parse_pair(split_once_spec(s, 'x'))
}

/// `X,Y` split at the first comma, or else `XxY` or `XXY` split at the last `x` or `X`.
pub open spec fn parse_position_spec(s: Seq<char>) -> Option<(int, int)> {
    let parts = if split_once_spec(s, ',') is Some {
        split_once_spec(s, ',')
    } else if rsplit_once_spec(s, 'x') is Some {
        rsplit_once_spec(s, 'x')
    } else {
        rsplit_once_spec(s, 'X')
    };
    parse_pair(parts)
}

fn parse_pair_at(v: &Vec<char>, split: usize) -> (r: Option<(i32, i32)>)
    requires
        split < v@.len(),
    ensures
        r matches Some((x, y)) ==> parse_pair(
            Some((v@.take(split as int), v@.skip(split + 1))),
        ) == Some((x as int, y as int)),
        r is None ==> parse_pair(Some((v@.take(split as int), v@.skip(split + 1)))) is None,
{
    assert(v@.take(split as int) == v@.subrange(0, split as int));
    assert(v@.skip(split + 1) == v@.subrange(split + 1, v@.len() as int));
    let n = v.len();
    let a = parse_i32(v, 0, split);
    let b = parse_i32(v, split + 1, n);
    match (a, b) {
        (Some(x), Some(y)) => Some((x, y)),
        _ => None,
    }
}

/// Parses a resolution such as `1920x1080`.
pub fn parse_resolution(value: &str) -> (r: Option<(i32, i32)>)
    ensures
        r matches Some((w, h)) ==> parse_resolution_spec(value@) == Some((w as int, h as int)),
        r is None ==> parse_resolution_spec(value@) is None,
{
    let v = chars_of(value);
    assert(v@.subrange(0, v@.len() as int) == v@);
    let i = find_first(&v, 0, v.len(), 'x');
    if i == v.len() {
        return None;
    }
    parse_pair_at(&v, i)
}

/// Parses a position such as `100,200` or `-1920x0`.
pub fn parse_position(value: &str) -> (r: Option<(i32, i32)>)
    ensures
        r matches Some((x, y)) ==> parse_position_spec(value@) == Some((x as int, y as int)),
        r is None ==> parse_position_spec(value@) is None,
{
    let v = chars_of(value);
    assert(v@.subrange(0, v@.len() as int) == v@);
    let i = find_first(&v, 0, v.len(), ',');
    if i < v.len() {
        return parse_pair_at(&v, i);
    }
    match find_last(&v, 0, v.len(), 'x') {
        Some(j) => parse_pair_at(&v, j),
        None => match find_last(&v, 0, v.len(), 'X') {
            Some(j) => parse_pair_at(&v, j),
            None => None,
        },
    }
}

/// The bit pattern of `0.005_001`: how far a typed scale may be from a supported one.
pub const DISPLAYED_SCALE_TOLERANCE: u64 = 0x3f74_7bed_b728_1fda;

/// Among the first `n` entries, the index that `Iterator::min_by` picks when
/// comparing `distances` with `compare` (unordered counts as equal), over
/// the entries whose distance is within the tolerance.
pub open spec fn nearest_within_tolerance(distances: Seq<u64>, n: int) -> Option<int>
    decreases n,
{
    if n <= 0 {
        None
    } else {
        let best = nearest_within_tolerance(distances, n - 1);
        let d = distances[n - 1];
        let within = compare_spec(d, DISPLAYED_SCALE_TOLERANCE) == FloatOrder::Less
            || compare_spec(d, DISPLAYED_SCALE_TOLERANCE) == FloatOrder::Equal;
        if !within {
            best
        } else {
            match best {
                None => Some(n - 1),
                Some(b) => if compare_spec(distances[b], d) == FloatOrder::Greater {
                    Some(n - 1)
                } else {
                    Some(b)
                },
            }
        }
    }
}

/// The scale `match_supported_scale` picks: a supported scale equal to the
/// request, or else the nearest one within the tolerance. `distances[i]` is the
/// bit pattern of `|supported[i] - requested|`.
pub open spec fn match_supported_scale_spec(
    requested: u64,
    supported: Seq<u64>,
    distances: Seq<u64>,
) -> Option<u64> {
    let exact = crate::search::first_index(
        supported.len(),
        |i: int| float_eq_spec(supported[i], requested),
    );
    if exact < supported.len() {
        Some(supported[exact])
    } else {
        match nearest_within_tolerance(distances, supported.len() as int) {
            Some(i) => Some(supported[i]),
            None => None,
        }
    }
}

/// Matches a typed scale against the supported scales of a mode.
pub fn match_supported_scale(requested: u64, supported_scales: &[u64], distances: &[u64]) -> (r:
    Option<u64>)
    requires
        distances@.len() == supported_scales@.len(),
    ensures
        r == match_supported_scale_spec(requested, supported_scales@, distances@),
{
    let ghost pred = |i: int| float_eq_spec(supported_scales@[i], requested);
    let mut i: usize = 0;
    while i < supported_scales.len()
        invariant
            0 <= i <= supported_scales@.len(),
            pred == (|i: int| float_eq_spec(supported_scales@[i], requested)),
            forall|j: int| 0 <= j < i ==> !#[trigger] pred(j),
        decreases supported_scales@.len() - i,
    {
        if float_eq(supported_scales[i], requested) {
            proof {
                crate::search::lemma_first_index(supported_scales@.len(), pred, i as int);
            }
            return Some(supported_scales[i]);
        }
        i = i + 1;
    }
    proof {
        crate::search::lemma_first_index(supported_scales@.len(), pred, i as int);
    }
    let mut best: Option<usize> = None;
    let mut k: usize = 0;
    while k < distances.len()
        invariant
            0 <= k <= distances@.len(),
            distances@.len() == supported_scales@.len(),
            match best {
                Some(b) => nearest_within_tolerance(distances@, k as int) == Some(b as int) && b
                    < k,
                None => nearest_within_tolerance(distances@, k as int) is None,
            },
        decreases distances@.len() - k,
    {
        let d = distances[k];
        if float_le(d, DISPLAYED_SCALE_TOLERANCE) {
            best = match best {
                None => Some(k),
                Some(b) => if compare(distances[b], d) == FloatOrder::Greater {
                    Some(k)
                } else {
                    Some(b)
                },
            };
        }
        k = k + 1;
    }
    match best {
        Some(b) => Some(supported_scales[b]),
        None => None,
    }
}

} // verus!
