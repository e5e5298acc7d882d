//! Software brightness and gamma: the saved color state of an output, its
//! text form, and the decisions that reading and changing it take.

use vstd::prelude::*;

use crate::display_config::proxied_methods::{BrightnessFilter, Gamma, GammaAdjustment};
use crate::display_config::resources::{Crtc, Output, Resources};
use crate::float_bits::{ONE_BITS, SIGN_BIT, INFINITY_BITS};
use crate::text::{
    chars_of, decimal_digits, lemma_decimal_digits_value, parse_u16, parse_unsigned_spec, push_char, push_decimal,
    push_str, all_digits,
};

verus! {

/// Whether the color that an output shows is one that this tool set.
#[derive(Debug, Clone, Copy, PartialEq, Eq, Structural)]
pub enum CurrentColorState {
    Managed,
    Identity,
    Unknown,
}

/// The software color of an output as far as it is known. `brightness` and
/// the gamma channels are `f64` bit patterns.
#[derive(Debug, Clone, Copy, PartialEq, Eq, Structural)]
pub struct CurrentColor {
    pub state: CurrentColorState,
    pub brightness: Option<u64>,
    pub filter: Option<BrightnessFilter>,
    pub gamma_adjustment: Option<GammaAdjustment>,
}

impl CurrentColor {
    /// A color that this tool set.
    pub fn managed(brightness: u64, filter: BrightnessFilter, gamma_adjustment: GammaAdjustment) -> (r: CurrentColor)
        ensures
            r == (CurrentColor {
                state: CurrentColorState::Managed,
                brightness: Some(brightness),
                filter: Some(filter),
                gamma_adjustment: Some(gamma_adjustment),
            }),
    {
        CurrentColor {
            state: CurrentColorState::Managed,
            brightness: Some(brightness),
            filter: Some(filter),
            gamma_adjustment: Some(gamma_adjustment),
        }
    }

    /// The unchanged color: brightness one, linear filter, no gamma adjustment.
    pub fn identity() -> (r: CurrentColor)
        ensures
            r == (CurrentColor {
                state: CurrentColorState::Identity,
                brightness: Some(ONE_BITS),
                filter: Some(BrightnessFilter::Linear),
                gamma_adjustment: Some(GammaAdjustment { red: ONE_BITS, green: ONE_BITS, blue: ONE_BITS }),
            }),
    {
        CurrentColor {
            state: CurrentColorState::Identity,
            brightness: Some(ONE_BITS),
            filter: Some(BrightnessFilter::Linear),
            gamma_adjustment: Some(GammaAdjustment::identity()),
        }
    }

    /// A color that this tool cannot account for.
    pub fn unknown() -> (r: CurrentColor)
        ensures
            r == (CurrentColor { state: CurrentColorState::Unknown, brightness: None, filter: None, gamma_adjustment: None }),
    {
        CurrentColor { state: CurrentColorState::Unknown, brightness: None, filter: None, gamma_adjustment: None }
    }
}

/// Why software color cannot be changed.
#[derive(Debug, Clone, Copy, PartialEq, Eq, Structural)]
pub enum Error {
    NotFound,
    OutputDisabled,
    InvalidBrightness,
    InvalidGamma,
    CrtcNotFound,
}

impl Error {
    /// What the error says to the user.
    pub open spec fn message_text(&self) -> Seq<char> {
        match self {
            Error::NotFound => "fatal: unable to find output."@,
            Error::OutputDisabled => "fatal: output is disabled."@,
            Error::InvalidBrightness => "fatal: brightness must be a finite number greater than or equal to 0."@,
            Error::InvalidGamma => "fatal: gamma must be finite values greater than 0, using R or R:G:B."@,
            Error::CrtcNotFound => "fatal: unable to find CRTC for output."@,
        }
    }

    pub fn message(&self) -> (r: String)
        ensures
            r@ == self.message_text(),
    {
        match self {
            Error::NotFound => "fatal: unable to find output.".to_owned(),
            Error::OutputDisabled => "fatal: output is disabled.".to_owned(),
            Error::InvalidBrightness => "fatal: brightness must be a finite number greater than or equal to 0.".to_owned(),
            Error::InvalidGamma => "fatal: gamma must be finite values greater than 0, using R or R:G:B.".to_owned(),
            Error::CrtcNotFound => "fatal: unable to find CRTC for output.".to_owned(),
        }
    }
}

// ---------------------------------------------------------------------------
// Channels as text
// ---------------------------------------------------------------------------

/// `str::split` on one character: the pieces between the separators, in order.
pub open spec fn split_on(s: Seq<char>, sep: char) -> Seq<Seq<char>>
    decreases s.len(),
{
    if s.len() == 0 {
        seq![Seq::empty()]
    } else {
        let prev = split_on(s.drop_last(), sep);
        if s.last() == sep {
            prev.push(Seq::empty())
        } else {
            prev.update(prev.len() - 1, prev.last().push(s.last()))
        }
    }
}

/// The pieces joined with the separator between them (`[T]::join`).
pub open spec fn join_on(parts: Seq<Seq<char>>, sep: char) -> Seq<char>
    decreases parts.len(),
{
    if parts.len() == 0 {
        Seq::empty()
    } else if parts.len() == 1 {
        parts[0]
    } else {
        join_on(parts.drop_last(), sep).push(sep) + parts.last()
    }
}

/// Every piece parsed as a `u16`, or nothing where one does not parse.
pub open spec fn parse_all(parts: Seq<Seq<char>>) -> Option<Seq<u16>>
    decreases parts.len(),
{
    if parts.len() == 0 {
        Some(Seq::empty())
    } else {
        match parse_all(parts.drop_last()) {
            None => None,
            Some(values) => match parse_unsigned_spec(parts.last(), 0xffff) {
                Some(v) => Some(values.push(v as u16)),
                None => None,
            },
        }
    }
}

/// A gamma channel read from its text: comma-separated decimal entries; the
/// empty text is the empty channel.
pub open spec fn parse_channel_spec(s: Seq<char>) -> Option<Seq<u16>> {
    if s.len() == 0 {
        Some(Seq::empty())
    } else {
        parse_all(split_on(s, ','))
    }
}

pub open spec fn entry_texts(channel: Seq<u16>) -> Seq<Seq<char>> {
    channel.map_values(|v: u16| decimal_digits(v as nat))
}

/// A gamma channel as text: its entries in decimal, separated by commas.
pub open spec fn serialize_channel_spec(channel: Seq<u16>) -> Seq<char> {
    join_on(entry_texts(channel), ',')
}

proof fn lemma_split_nonempty(s: Seq<char>, sep: char)
    ensures
        split_on(s, sep).len() >= 1,
    decreases s.len(),
{
    if s.len() > 0 {
        lemma_split_nonempty(s.drop_last(), sep);
    }
}

proof fn lemma_split_append(a: Seq<char>, b: Seq<char>, sep: char)
    requires
        !b.contains(sep),
    ensures
        split_on(a + b, sep) == split_on(a, sep).update(
            split_on(a, sep).len() - 1,
            split_on(a, sep).last() + b,
        ),
    decreases b.len(),
{
    lemma_split_nonempty(a, sep);
    if b.len() == 0 {
        assert(a + b =~= a);
        assert(split_on(a, sep).last() + b =~= split_on(a, sep).last());
        assert(split_on(a, sep).update(split_on(a, sep).len() - 1, split_on(a, sep).last()) =~= split_on(a, sep));
    } else {
        let c = b.last();
        assert(b[b.len() - 1] == c);
        assert(!b.drop_last().contains(sep)) by {
            if b.drop_last().contains(sep) {
                let w = choose|w: int| 0 <= w < b.drop_last().len() && b.drop_last()[w] == sep;
                assert(b[w] == sep);
            }
        }
        lemma_split_append(a, b.drop_last(), sep);
        assert((a + b).drop_last() =~= a + b.drop_last());
        assert((a + b).last() == c);
        let pa = split_on(a, sep);
        assert((pa.last() + b.drop_last()).push(c) =~= pa.last() + b);
        assert(split_on(a + b, sep) =~= pa.update(pa.len() - 1, pa.last() + b));
    }
}

proof fn lemma_split_join(parts: Seq<Seq<char>>, sep: char)
    requires
        parts.len() >= 1,
        forall|i: int| 0 <= i < parts.len() ==> !(#[trigger] parts[i]).contains(sep),
    ensures
        split_on(join_on(parts, sep), sep) == parts,
    decreases parts.len(),
{
    if parts.len() == 1 {
        lemma_split_append(Seq::empty(), parts[0], sep);
        assert(Seq::<char>::empty() + parts[0] =~= parts[0]);
        assert(split_on(Seq::<char>::empty(), sep) == seq![Seq::<char>::empty()]);
        assert(split_on(parts[0], sep) =~= parts);
    } else {
        let front = parts.drop_last();
        assert forall|i: int| 0 <= i < front.len() implies !(#[trigger] front[i]).contains(sep) by {
            assert(front[i] == parts[i]);
        }
        lemma_split_join(front, sep);
        let joined = join_on(front, sep).push(sep);
        assert(joined.drop_last() =~= join_on(front, sep));
        assert(split_on(joined, sep) == front.push(Seq::empty()));
        assert(!parts.last().contains(sep)) by {
            assert(parts.last() == parts[parts.len() - 1]);
        }
        lemma_split_append(joined, parts.last(), sep);
        assert(Seq::<char>::empty() + parts.last() =~= parts.last());
        assert(front.push(Seq::empty()).update(front.len() as int, parts.last()) =~= parts);
    }
}

proof fn lemma_parse_entries(channel: Seq<u16>)
    ensures
        parse_all(entry_texts(channel)) == Some(channel),
    decreases channel.len(),
{
    if channel.len() > 0 {
        lemma_parse_entries(channel.drop_last());
        assert(entry_texts(channel).drop_last() =~= entry_texts(channel.drop_last()));
        let v = channel.last();
        let t = decimal_digits(v as nat);
        lemma_decimal_digits_value(v as nat);
        assert(entry_texts(channel).last() == t);
        assert(crate::text::is_digit(t[0]));
        assert(parse_unsigned_spec(t, 0xffff) == Some(v as nat));
        assert(channel.drop_last().push(v) =~= channel);
    }
}

/// Reading a channel back from its text gives the channel.
pub proof fn lemma_channel_roundtrip(channel: Seq<u16>)
    ensures
        parse_channel_spec(serialize_channel_spec(channel)) == Some(channel),
{
    lemma_parse_entries(channel);
    let parts = entry_texts(channel);
    if channel.len() == 0 {
        assert(channel =~= Seq::<u16>::empty());
    } else {
        assert forall|i: int| 0 <= i < parts.len() implies !(#[trigger] parts[i]).contains(',') by {
            lemma_decimal_digits_value(channel[i] as nat);
            if parts[i].contains(',') {
                let w = choose|w: int| 0 <= w < parts[i].len() && parts[i][w] == ',';
                assert(crate::text::is_digit(parts[i][w]));
            }
        }
        lemma_split_join(parts, ',');
        lemma_join_nonempty(parts, ',');
    }
}

proof fn lemma_join_nonempty(parts: Seq<Seq<char>>, sep: char)
    requires
        parts.len() >= 1,
        parts[0].len() > 0 || parts.len() > 1,
    ensures
        join_on(parts, sep).len() > 0,
    decreases parts.len(),
{
    if parts.len() > 1 {
        if parts.len() > 2 {
            lemma_join_nonempty(parts.drop_last(), sep);
        }
    }
}

/// The ranges of the pieces of `chars` between separators, as `str::split` gives them.
pub fn split_ranges(chars: &Vec<char>, sep: char) -> (r: (Vec<usize>, Vec<usize>))
    ensures
        ranges_within(r.0@, r.1@, chars@.len()),
        Seq::new(r.0@.len(), |k: int| chars@.subrange(r.0@[k] as int, r.1@[k] as int)) == split_on(chars@, sep),
{
    let ghost s = chars@;
    let mut starts: Vec<usize> = Vec::new();
    let mut ends: Vec<usize> = Vec::new();
    let mut start: usize = 0;
    let mut i: usize = 0;
    assert(s.take(0) =~= Seq::<char>::empty());
    assert(Seq::new(0, |k: int| s.subrange(starts@[k] as int, ends@[k] as int)).push(s.subrange(0, 0)) =~= seq![
        Seq::<char>::empty(),
    ]);
    while i < chars.len()
        invariant
            s == chars@,
            0 <= start <= i <= s.len(),
            starts@.len() == ends@.len(),
            forall|k: int| 0 <= k < starts@.len() ==> #[trigger] starts@[k] <= ends@[k] <= s.len(),
            Seq::new(starts@.len(), |k: int| s.subrange(starts@[k] as int, ends@[k] as int)).push(
                s.subrange(start as int, i as int),
            ) == split_on(s.take(i as int), sep),
        decreases s.len() - i,
    {
        let ghost pieces = Seq::new(starts@.len(), |k: int| s.subrange(starts@[k] as int, ends@[k] as int));
        assert(s.take(i + 1).drop_last() =~= s.take(i as int));
        assert(s.take(i + 1).last() == s[i as int]);
        if chars[i] == sep {
            starts.push(start);
            ends.push(i);
            start = i + 1;
            assert(Seq::new(starts@.len(), |k: int| s.subrange(starts@[k] as int, ends@[k] as int)) =~= pieces.push(
                s.subrange(starts@.last() as int, i as int),
            ));
            assert(s.subrange(start as int, i + 1) =~= Seq::<char>::empty());
        } else {
            assert(s.subrange(start as int, i + 1) =~= s.subrange(start as int, i as int).push(s[i as int]));
        }
        i = i + 1;
    }
    let ghost before = Seq::new(starts@.len(), |k: int| s.subrange(starts@[k] as int, ends@[k] as int));
    let ghost old_starts = starts@;
    let ghost old_ends = ends@;
    starts.push(start);
    ends.push(i);
    assert forall|k: int| 0 <= k < starts@.len() implies #[trigger] starts@[k] <= ends@[k] <= chars@.len() by {
        if k < old_starts.len() {
            assert(starts@[k] == old_starts[k] && ends@[k] == old_ends[k]);
        }
    }
    assert(s.take(i as int) =~= s);
    assert(Seq::new(starts@.len(), |k: int| s.subrange(starts@[k] as int, ends@[k] as int)) =~= before.push(
        s.subrange(start as int, i as int),
    ));
    (starts, ends)
}

/// Whether `starts[k]..ends[k]` is a range within `0..n` for every `k`.
pub open spec fn ranges_within(starts: Seq<usize>, ends: Seq<usize>, n: nat) -> bool {
    &&& starts.len() == ends.len()
    &&& forall|k: int| 0 <= k < starts.len() ==> #[trigger] starts[k] <= ends[k] <= n
}

/// Parses a channel from its text.
pub fn parse_channel(value: &str) -> (r: Option<Vec<u16>>)
    ensures
        match parse_channel_spec(value@) {
            Some(c) => r matches Some(v) && v@ == c,
            None => r is None,
        },
{
    let chars = chars_of(value);
    if chars.len() == 0 {
        return Some(Vec::new());
    }
    let ghost s = chars@;
    let (starts, ends) = split_ranges(&chars, ',');
    let ghost pieces = Seq::new(starts@.len(), |k: int| s.subrange(starts@[k] as int, ends@[k] as int));
    let mut values: Vec<u16> = Vec::new();
    let mut k: usize = 0;
    while k < starts.len()
        invariant
            s == chars@,
            starts@.len() == ends@.len(),
            forall|j: int| 0 <= j < starts@.len() ==> #[trigger] starts@[j] <= ends@[j] <= s.len(),
            pieces == Seq::new(starts@.len(), |j: int| s.subrange(starts@[j] as int, ends@[j] as int)),
            pieces == split_on(s, ','),
            s == value@,
            s.len() > 0,
            0 <= k <= starts@.len(),
            parse_all(pieces.take(k as int)) == Some(values@),
        decreases starts@.len() - k,
    {
        assert(pieces.take(k + 1).drop_last() =~= pieces.take(k as int));
        assert(pieces.take(k + 1).last() == s.subrange(starts@[k as int] as int, ends@[k as int] as int));
        match parse_u16(&chars, starts[k], ends[k]) {
            Some(v) => {
                values.push(v);
            },
            None => {
                proof {
                    lemma_parse_all_fails(pieces, k as int + 1);
                }
                return None;
            },
        }
        k = k + 1;
    }
    assert(pieces.take(k as int) =~= pieces);
    Some(values)
}

proof fn lemma_parse_all_fails(parts: Seq<Seq<char>>, k: int)
    requires
        0 <= k <= parts.len(),
        parse_all(parts.take(k)) is None,
    ensures
        parse_all(parts) is None,
    decreases parts.len() - k,
{
    if k < parts.len() {
        assert(parts.take(k + 1).drop_last() =~= parts.take(k));
        lemma_parse_all_fails(parts, k + 1);
    } else {
        assert(parts.take(k) =~= parts);
    }
}

/// Writes a channel as text.
pub fn serialize_channel(channel: &Vec<u16>) -> (r: String)
    ensures
        r@ == serialize_channel_spec(channel@),
{
    let ghost texts = entry_texts(channel@);
    let mut r = String::new();
    let mut i: usize = 0;
    while i < channel.len()
        invariant
            0 <= i <= channel@.len(),
            texts == entry_texts(channel@),
            r@ == join_on(texts.take(i as int), ','),
        decreases channel@.len() - i,
    {
        assert(texts.take(i + 1).drop_last() =~= texts.take(i as int));
        assert(texts.take(i + 1).last() == decimal_digits(channel@[i as int] as nat));
        if i > 0 {
            push_char(&mut r, ',');
        } else {
            assert(r@ =~= Seq::<char>::empty());
            assert(Seq::<char>::empty() + decimal_digits(channel@[0] as nat) =~= decimal_digits(channel@[0] as nat));
        }
        push_decimal(&mut r, channel[i] as u64);
        i = i + 1;
    }
    assert(texts.take(i as int) =~= texts);
    r
}

// ---------------------------------------------------------------------------
// Where the saved state lives
// ---------------------------------------------------------------------------

/// A connector's character as it stands in a file name: ASCII letters,
/// digits, `-`, `_` and `.` as they are, anything else as `_`.
pub open spec fn file_name_char(c: char) -> char {
    if ('a' <= c && c <= 'z') || ('A' <= c && c <= 'Z') || ('0' <= c && c <= '9') || c == '-' || c == '_' || c
        == '.' {
        c
    } else {
        '_'
    }
}

/// The name of the file that holds an output's saved color state.
pub open spec fn state_file_spec(connector: Seq<char>) -> Seq<char> {
    "brightness-"@ + connector.map_values(|c: char| file_name_char(c)) + ".state"@
}

/// Whatever the connector, its state file name stays within the state
/// directory: it holds no `/`.
pub proof fn lemma_state_file_has_no_separator(connector: Seq<char>)
    ensures
        !state_file_spec(connector).contains('/'),
{
    reveal_strlit("brightness-");
    reveal_strlit(".state");
    let middle = connector.map_values(|c: char| file_name_char(c));
    let name = state_file_spec(connector);
    assert("brightness-"@.len() == 11 && ".state"@.len() == 6);
    assert forall|i: int| 0 <= i < name.len() implies name[i] != '/' by {
        if i < 11 {
            assert(name[i] == "brightness-"@[i]);
        } else if i < 11 + middle.len() {
            assert(name[i] == middle[i - 11]);
        } else {
            assert(name[i] == ".state"@[i - 11 - middle.len()]);
        }
    }
}

/// The file name of an output's saved color state, within the state directory.
pub fn state_file(connector: &str) -> (r: String)
    ensures
        r@ == state_file_spec(connector@),
{
    let chars = chars_of(connector);
    let mut r = "brightness-".to_owned();
    let ghost prefix = r@;
    let mut i: usize = 0;
    while i < chars.len()
        invariant
            0 <= i <= chars@.len(),
            chars@ == connector@,
            prefix == "brightness-"@,
            r@ == prefix + chars@.take(i as int).map_values(|c: char| file_name_char(c)),
        decreases chars@.len() - i,
    {
        let ch = chars[i];
        let mapped = if ('a' <= ch && ch <= 'z') || ('A' <= ch && ch <= 'Z') || ('0' <= ch && ch <= '9') || ch == '-'
            || ch == '_' || ch == '.' {
            ch
        } else {
            '_'
        };
        push_char(&mut r, mapped);
        assert(chars@.take(i + 1).map_values(|c: char| file_name_char(c)) =~= chars@.take(i as int).map_values(
            |c: char| file_name_char(c),
        ).push(mapped));
        i = i + 1;
    }
    assert(chars@.take(i as int) =~= chars@);
    push_str(&mut r, ".state");
    r
}

// ---------------------------------------------------------------------------
// Outputs and CRTCs
// ---------------------------------------------------------------------------

/// The output on the connector.
pub fn find_output<'a>(resources: &'a Resources, connector: &str) -> (r: Result<&'a Output, Error>)
    ensures
        r is Err <==> resources.output_index(connector@) == resources.outputs@.len(),
        r matches Err(e) ==> e == Error::NotFound,
        r matches Ok(o) ==> *o == resources.outputs@[resources.output_index(connector@)],
{
    match resources.output_for_connector(connector) {
        Some(o) => Ok(o),
        None => Err(Error::NotFound),
    }
}

/// The CRTC that drives the output: refused where the output drives none
/// (a negative CRTC) and where no CRTC has the id.
pub fn find_crtc<'a>(resources: &'a Resources, output: &Output) -> (r: Result<&'a Crtc, Error>)
    ensures
        output.current_crtc < 0 ==> r == Err::<&Crtc, Error>(Error::OutputDisabled),
        output.current_crtc >= 0 ==> match r {
            Ok(c) => resources.crtc_index(output.current_crtc as u32) < resources.crtcs@.len() && *c
                == resources.crtcs@[resources.crtc_index(output.current_crtc as u32)],
            Err(e) => e == Error::CrtcNotFound && resources.crtc_index(output.current_crtc as u32)
                == resources.crtcs@.len(),
        },
{
    if output.current_crtc < 0 {
        return Err(Error::OutputDisabled);
    }
    let id = output.current_crtc as u32;
    match resources.crtc_by_id(id) {
        Some(c) => Ok(c),
        None => Err(Error::CrtcNotFound),
    }
}

// ---------------------------------------------------------------------------
// Requests
// ---------------------------------------------------------------------------

/// Whether an `f64` is finite: its exponent bits are not all set.
pub open spec fn is_finite(bits: u64) -> bool {
    bits & INFINITY_BITS != INFINITY_BITS
}

/// Whether an `f64` is below zero: the sign is set on a nonzero magnitude.
pub open spec fn is_negative(bits: u64) -> bool {
    bits & SIGN_BIT != 0 && bits & !SIGN_BIT != 0
}

/// Whether an `f64` is zero or below.
pub open spec fn at_most_zero(bits: u64) -> bool {
    bits & SIGN_BIT != 0 || bits == 0
}

/// Whether a gamma value is usable: finite and above zero.
pub open spec fn gamma_value_valid(bits: u64) -> bool {
    is_finite(bits) && !at_most_zero(bits)
}

/// Parses `--filter`.
pub fn parse_filter(value: &str) -> (r: Result<BrightnessFilter, String>)
    ensures
        r matches Ok(f) ==> BrightnessFilter::spec_from_name(value@) == Some(f),
        r matches Err(message) ==> BrightnessFilter::spec_from_name(value@) is None && message@
            == "invalid brightness filter: "@ + value@,
{
    match BrightnessFilter::from_name(value) {
        Some(filter) => Ok(filter),
        None => Err(crate::cli::modify::message_with("invalid brightness filter: ", value)),
    }
}

/// Whether a gamma component read as a number, finite and above zero.
pub open spec fn gamma_component_ok(n: Option<u64>) -> bool {
    n matches Some(b) && gamma_value_valid(b)
}

/// What a `--gamma` option reads as: one component for all three channels, or
/// three for red, green and blue, each read as a number (`numbers[k]` for the
/// `k`-th component, none where it does not read as one) that must be finite
/// and above zero; else the message that names the first bad component, or
/// the whole value where it has neither one nor three components.
pub open spec fn gamma_option_spec(value: Seq<char>, numbers: Seq<Option<u64>>) -> Result<GammaAdjustment, Seq<char>> {
    let parts = split_on(value, ':');
    let bad = |c: Seq<char>| "invalid gamma value: "@ + c;
    if parts.len() == 1 {
        if gamma_component_ok(numbers[0]) {
            Ok(GammaAdjustment { red: numbers[0]->0, green: numbers[0]->0, blue: numbers[0]->0 })
        } else {
            Err(bad(parts[0]))
        }
    } else if parts.len() == 3 {
        if !gamma_component_ok(numbers[0]) {
            Err(bad(parts[0]))
        } else if !gamma_component_ok(numbers[1]) {
            Err(bad(parts[1]))
        } else if !gamma_component_ok(numbers[2]) {
            Err(bad(parts[2]))
        } else {
            Ok(GammaAdjustment { red: numbers[0]->0, green: numbers[1]->0, blue: numbers[2]->0 })
        }
    } else {
        Err(bad(value) + ". Use R or R:G:B, for example 1 or 1.1:1.0:0.9"@)
    }
}

/// The components of a `--gamma` option: its text split at each `:`.
pub fn gamma_components(value: &str) -> (r: Vec<String>)
    ensures
        crate::text::string_views(r@) == split_on(value@, ':'),
{
    let chars = chars_of(value);
    let (starts, ends) = split_ranges(&chars, ':');
    let ghost pieces = Seq::new(starts@.len(), |k: int| chars@.subrange(starts@[k] as int, ends@[k] as int));
    let mut r: Vec<String> = Vec::new();
    let mut k: usize = 0;
    while k < starts.len()
        invariant
            0 <= k <= starts@.len(),
            ranges_within(starts@, ends@, chars@.len()),
            pieces == Seq::new(starts@.len(), |k: int| chars@.subrange(starts@[k] as int, ends@[k] as int)),
            crate::text::string_views(r@) =~= pieces.take(k as int),
        decreases starts@.len() - k,
    {
        let mut piece = String::new();
        crate::text::push_chars(&mut piece, &chars, starts[k], ends[k]);
        let ghost before = r@;
        r.push(piece);
        assert(crate::text::string_views(r@) =~= crate::text::string_views(before).push(pieces[k as int]));
        assert(pieces.take(k + 1) =~= pieces.take(k as int).push(pieces[k as int]));
        k = k + 1;
    }
    assert(pieces.take(starts@.len() as int) =~= pieces);
    r
}

fn component_ok(n: Option<u64>) -> (r: bool)
    ensures
        r == gamma_component_ok(n),
{
    match n {
        Some(b) => gamma_valid(b),
        None => false,
    }
}

fn bad_component(c: &str) -> (r: String)
    ensures
        r@ == "invalid gamma value: "@ + c@,
{
    let mut r = "invalid gamma value: ".to_owned();
    push_str(&mut r, c);
    r
}

/// Reads a `--gamma` option, given what each of its components reads as.
pub fn gamma_adjustment_from(value: &str, numbers: &Vec<Option<u64>>) -> (r: Result<GammaAdjustment, String>)
    requires
        numbers@.len() == split_on(value@, ':').len(),
    ensures
        match gamma_option_spec(value@, numbers@) {
            Ok(g) => r == Ok::<GammaAdjustment, String>(g),
            Err(m) => r matches Err(e) && e@ == m,
        },
{
    let parts = gamma_components(value);
    assert(parts@.len() == split_on(value@, ':').len());
    if parts.len() == 1 {
        assert(parts@[0]@ == split_on(value@, ':')[0]);
        if component_ok(numbers[0]) {
            let v = numbers[0].unwrap();
            Ok(GammaAdjustment { red: v, green: v, blue: v })
        } else {
            Err(bad_component(parts[0].as_str()))
        }
    } else if parts.len() == 3 {
        assert(parts@[0]@ == split_on(value@, ':')[0]);
        assert(parts@[1]@ == split_on(value@, ':')[1]);
        assert(parts@[2]@ == split_on(value@, ':')[2]);
        if !component_ok(numbers[0]) {
            Err(bad_component(parts[0].as_str()))
        } else if !component_ok(numbers[1]) {
            Err(bad_component(parts[1].as_str()))
        } else if !component_ok(numbers[2]) {
            Err(bad_component(parts[2].as_str()))
        } else {
            Ok(GammaAdjustment { red: numbers[0].unwrap(), green: numbers[1].unwrap(), blue: numbers[2].unwrap() })
        }
    } else {
        let mut message = bad_component(value);
        push_str(&mut message, ". Use R or R:G:B, for example 1 or 1.1:1.0:0.9");
        Err(message)
    }
}

/// The brightness and gamma to apply, each defaulting to no change, refused
/// where the brightness is not a finite number of at least zero, or a gamma
/// channel is not a finite number above zero.
pub open spec fn validate_color_spec(brightness: Option<u64>, gamma: Option<GammaAdjustment>) -> Result<
    (u64, GammaAdjustment),
    Error,
> {
    let b = match brightness {
        Some(x) => x,
        None => ONE_BITS,
    };
    let g = match gamma {
        Some(x) => x,
        None => GammaAdjustment { red: ONE_BITS, green: ONE_BITS, blue: ONE_BITS },
    };
    if !is_finite(b) || is_negative(b) {
        Err(Error::InvalidBrightness)
    } else if !gamma_value_valid(g.red) || !gamma_value_valid(g.green) || !gamma_value_valid(g.blue) {
        Err(Error::InvalidGamma)
    } else {
        Ok((b, g))
    }
}

fn finite(bits: u64) -> (r: bool)
    ensures
        r == is_finite(bits),
{
    bits & INFINITY_BITS != INFINITY_BITS
}

fn gamma_valid(bits: u64) -> (r: bool)
    ensures
        r == gamma_value_valid(bits),
{
    finite(bits) && !(bits & SIGN_BIT != 0 || bits == 0)
}

/// Checks a software color request.
pub fn validate_color_request(brightness: Option<u64>, gamma: Option<GammaAdjustment>) -> (r: Result<
    (u64, GammaAdjustment),
    Error,
>)
    ensures
        r == validate_color_spec(brightness, gamma),
{
    let b = match brightness {
        Some(x) => x,
        None => ONE_BITS,
    };
    let g = match gamma {
        Some(x) => x,
        None => GammaAdjustment::identity(),
    };
    if !finite(b) || (b & SIGN_BIT != 0 && b & !SIGN_BIT != 0) {
        return Err(Error::InvalidBrightness);
    }
    if !gamma_valid(g.red) || !gamma_valid(g.green) || !gamma_valid(g.blue) {
        return Err(Error::InvalidGamma);
    }
    Ok((b, g))
}

/// What applying a software color announces: the brightness where it is not
/// one or the filter is not linear, the gamma where it is not the identity.
pub fn color_announcements(brightness: u64, filter: BrightnessFilter, gamma: GammaAdjustment) -> (r: (bool, bool))
    ensures
        r.0 == (brightness != ONE_BITS || filter != BrightnessFilter::Linear),
        r.1 == !gamma.spec_is_identity(),
{
    (brightness != ONE_BITS || filter != BrightnessFilter::Linear, !gamma.is_identity())
}

// ---------------------------------------------------------------------------
// The saved color state
// ---------------------------------------------------------------------------

/// The color state saved for an output: what was applied, and the gamma ramp
/// it was applied to. `brightness` and the gamma channels are `f64` bit patterns.
#[derive(Debug)]
pub struct SavedColorState {
    pub brightness: u64,
    pub filter: BrightnessFilter,
    pub gamma_adjustment: GammaAdjustment,
    pub base_gamma: Gamma,
}

/// The saved state as its file holds it: the numbers still as text.
#[derive(Debug)]
pub struct SavedColorRecord {
    pub brightness: String,
    pub filter: BrightnessFilter,
    pub gamma_red: Option<String>,
    pub gamma_green: Option<String>,
    pub gamma_blue: Option<String>,
    pub base_gamma: Gamma,
}

/// A `SavedColorRecord` as plain values.
pub struct SavedRecordView {
    pub brightness: Seq<char>,
    pub filter: BrightnessFilter,
    pub gamma_red: Option<Seq<char>>,
    pub gamma_green: Option<Seq<char>>,
    pub gamma_blue: Option<Seq<char>>,
    pub red: Seq<u16>,
    pub green: Seq<u16>,
    pub blue: Seq<u16>,
}

pub open spec fn opt_string_view(s: Option<String>) -> Option<Seq<char>> {
    match s {
        Some(t) => Some(t@),
        None => None,
    }
}

impl View for SavedColorRecord {
    type V = SavedRecordView;

    open spec fn view(&self) -> SavedRecordView {
        SavedRecordView {
            brightness: self.brightness@,
            filter: self.filter,
            gamma_red: opt_string_view(self.gamma_red),
            gamma_green: opt_string_view(self.gamma_green),
            gamma_blue: opt_string_view(self.gamma_blue),
            red: self.base_gamma.red@,
            green: self.base_gamma.green@,
            blue: self.base_gamma.blue@,
        }
    }
}

/// What the lines of a state file have set so far; each key keeps its last value.
pub struct SavedFields {
    pub brightness: Option<Seq<char>>,
    pub filter: Option<BrightnessFilter>,
    pub gamma_red: Option<Seq<char>>,
    pub gamma_green: Option<Seq<char>>,
    pub gamma_blue: Option<Seq<char>>,
    pub base_red: Option<Seq<u16>>,
    pub base_green: Option<Seq<u16>>,
    pub base_blue: Option<Seq<u16>>,
    pub legacy_red: Option<Seq<u16>>,
    pub legacy_green: Option<Seq<u16>>,
    pub legacy_blue: Option<Seq<u16>>,
}

pub open spec fn no_fields() -> SavedFields {
    SavedFields {
        brightness: None,
        filter: None,
        gamma_red: None,
        gamma_green: None,
        gamma_blue: None,
        base_red: None,
        base_green: None,
        base_blue: None,
        legacy_red: None,
        legacy_green: None,
        legacy_blue: None,
    }
}

/// A line without its trailing carriage return.
pub open spec fn strip_cr(line: Seq<char>) -> Seq<char> {
    if line.len() > 0 && line.last() == '\r' {
        line.drop_last()
    } else {
        line
    }
}

/// `str::lines`: the pieces between newlines, each without a carriage return
/// before its newline, and without an empty piece after a final newline.
pub open spec fn lines_spec(s: Seq<char>) -> Seq<Seq<char>> {
    let parts = split_on(s, '\n');
    let n = parts.len() - 1;
    let body = Seq::new(n as nat, |i: int| strip_cr(parts[i]));
    if parts[n].len() == 0 {
        body
    } else {
        body.push(parts[n])
    }
}

/// One `key=value` line read into the fields; a line without `=` spoils the file.
pub open spec fn read_line(f: SavedFields, line: Seq<char>) -> Option<SavedFields> {
    match crate::text::split_once_spec(line, '=') {
        None => None,
        Some((key, value)) => Some(
            if key == "brightness"@ {
                SavedFields { brightness: Some(value), ..f }
            } else if key == "filter"@ {
                SavedFields { filter: BrightnessFilter::spec_from_name(value), ..f }
            } else if key == "gamma-red"@ {
                SavedFields { gamma_red: Some(value), ..f }
            } else if key == "gamma-green"@ {
                SavedFields { gamma_green: Some(value), ..f }
            } else if key == "gamma-blue"@ {
                SavedFields { gamma_blue: Some(value), ..f }
            } else if key == "base-red"@ {
                SavedFields { base_red: parse_channel_spec(value), ..f }
            } else if key == "base-green"@ {
                SavedFields { base_green: parse_channel_spec(value), ..f }
            } else if key == "base-blue"@ {
                SavedFields { base_blue: parse_channel_spec(value), ..f }
            } else if key == "red"@ {
                SavedFields { legacy_red: parse_channel_spec(value), ..f }
            } else if key == "green"@ {
                SavedFields { legacy_green: parse_channel_spec(value), ..f }
            } else if key == "blue"@ {
                SavedFields { legacy_blue: parse_channel_spec(value), ..f }
            } else {
                f
            },
        ),
    }
}

pub open spec fn read_lines(lines: Seq<Seq<char>>) -> Option<SavedFields>
    decreases lines.len(),
{
    if lines.len() == 0 {
        Some(no_fields())
    } else {
        match read_lines(lines.drop_last()) {
            None => None,
            Some(f) => read_line(f, lines.last()),
        }
    }
}

pub open spec fn or_else<T>(a: Option<T>, b: Option<T>) -> Option<T> {
    match a {
        Some(x) => Some(x),
        None => b,
    }
}

/// The saved state that a file holds: a brightness and all three base
/// channels (the older `red`, `green`, `blue` keys standing in for missing
/// `base-` ones) are required; the filter defaults to linear.
pub open spec fn record_spec(contents: Seq<char>) -> Option<SavedRecordView> {
    match read_lines(lines_spec(contents)) {
        None => None,
        Some(f) => {
            let red = or_else(f.base_red, f.legacy_red);
            let green = or_else(f.base_green, f.legacy_green);
            let blue = or_else(f.base_blue, f.legacy_blue);
            if f.brightness is Some && red is Some && green is Some && blue is Some {
                Some(
                    SavedRecordView {
                        brightness: f.brightness->0,
                        filter: match f.filter {
                            Some(x) => x,
                            None => BrightnessFilter::Linear,
                        },
                        gamma_red: f.gamma_red,
                        gamma_green: f.gamma_green,
                        gamma_blue: f.gamma_blue,
                        red: red->0,
                        green: green->0,
                        blue: blue->0,
                    },
                )
            } else {
                None
            }
        },
    }
}

pub open spec fn opt_vec_view(v: Option<Vec<u16>>) -> Option<Seq<u16>> {
    match v {
        Some(x) => Some(x@),
        None => None,
    }
}

fn lines_of(chars: &Vec<char>) -> (r: (Vec<usize>, Vec<usize>))
    ensures
        r.0@.len() == r.1@.len(),
        forall|k: int| 0 <= k < r.0@.len() ==> #[trigger] r.0@[k] <= r.1@[k] <= chars@.len(),
        Seq::new(r.0@.len(), |k: int| chars@.subrange(r.0@[k] as int, r.1@[k] as int)) == lines_spec(chars@),
{
    let ghost s = chars@;
    let (starts, ends) = split_ranges(chars, '\n');
    let ghost parts = split_on(s, '\n');
    proof {
        lemma_split_nonempty(s, '\n');
    }
    let n = starts.len() - 1;
    let mut line_starts: Vec<usize> = Vec::new();
    let mut line_ends: Vec<usize> = Vec::new();
    let mut k: usize = 0;
    while k < n
        invariant
            s == chars@,
            parts == split_on(s, '\n'),
            starts@.len() == ends@.len(),
            n + 1 == starts@.len(),
            forall|j: int| 0 <= j < starts@.len() ==> #[trigger] starts@[j] <= ends@[j] <= s.len(),
            Seq::new(starts@.len(), |j: int| s.subrange(starts@[j] as int, ends@[j] as int)) == parts,
            0 <= k <= n,
            line_starts@.len() == k,
            line_ends@.len() == k,
            forall|j: int| 0 <= j < k ==> #[trigger] line_starts@[j] <= line_ends@[j] <= s.len(),
            forall|j: int| 0 <= j < k ==> s.subrange(#[trigger] line_starts@[j] as int, line_ends@[j] as int) == strip_cr(
                parts[j],
            ),
        decreases n - k,
    {
        let a = starts[k];
        let b = ends[k];
        assert(parts[k as int] == s.subrange(a as int, b as int));
        let e = if b > a && chars[b - 1] == '\r' {
            assert(s.subrange(a as int, b - 1) =~= s.subrange(a as int, b as int).drop_last());
            b - 1
        } else {
            b
        };
        line_starts.push(a);
        line_ends.push(e);
        k = k + 1;
    }
    let a = starts[n];
    let b = ends[n];
    assert(parts[n as int] == s.subrange(a as int, b as int));
    let ghost body = Seq::new(n as nat, |i: int| strip_cr(parts[i]));
    assert(Seq::new(line_starts@.len(), |j: int| s.subrange(line_starts@[j] as int, line_ends@[j] as int)) =~= body);
    if b > a {
        line_starts.push(a);
        line_ends.push(b);
        assert(Seq::new(line_starts@.len(), |j: int| s.subrange(line_starts@[j] as int, line_ends@[j] as int))
            =~= body.push(parts[n as int]));
    }
    (line_starts, line_ends)
}

/// Reads a state file's text.
pub fn parse_saved_record(contents: &str) -> (r: Option<SavedColorRecord>)
    ensures
        match record_spec(contents@) {
            Some(v) => r matches Some(rec) && rec@ == v,
            None => r is None,
        },
{
    let chars = chars_of(contents);
    let ghost s = chars@;
    let (starts, ends) = lines_of(&chars);
    let ghost lines = Seq::new(starts@.len(), |k: int| s.subrange(starts@[k] as int, ends@[k] as int));
    let mut brightness: Option<String> = None;
    let mut filter: Option<BrightnessFilter> = None;
    let mut gamma_red: Option<String> = None;
    let mut gamma_green: Option<String> = None;
    let mut gamma_blue: Option<String> = None;
    let mut base_red: Option<Vec<u16>> = None;
    let mut base_green: Option<Vec<u16>> = None;
    let mut base_blue: Option<Vec<u16>> = None;
    let mut legacy_red: Option<Vec<u16>> = None;
    let mut legacy_green: Option<Vec<u16>> = None;
    let mut legacy_blue: Option<Vec<u16>> = None;
    let mut k: usize = 0;
    assert(lines.take(0) =~= Seq::<Seq<char>>::empty());
    while k < starts.len()
        invariant
            s == chars@,
            s == contents@,
            starts@.len() == ends@.len(),
            forall|j: int| 0 <= j < starts@.len() ==> #[trigger] starts@[j] <= ends@[j] <= s.len(),
            lines == Seq::new(starts@.len(), |j: int| s.subrange(starts@[j] as int, ends@[j] as int)),
            lines == lines_spec(s),
            0 <= k <= starts@.len(),
            read_lines(lines.take(k as int)) == Some(
                SavedFields {
                    brightness: opt_string_view(brightness),
                    filter,
                    gamma_red: opt_string_view(gamma_red),
                    gamma_green: opt_string_view(gamma_green),
                    gamma_blue: opt_string_view(gamma_blue),
                    base_red: opt_vec_view(base_red),
                    base_green: opt_vec_view(base_green),
                    base_blue: opt_vec_view(base_blue),
                    legacy_red: opt_vec_view(legacy_red),
                    legacy_green: opt_vec_view(legacy_green),
                    legacy_blue: opt_vec_view(legacy_blue),
                },
            ),
        decreases starts@.len() - k,
    {
        let a = starts[k];
        let b = ends[k];
        let ghost line = s.subrange(a as int, b as int);
        assert(lines.take(k + 1).drop_last() =~= lines.take(k as int));
        assert(lines.take(k + 1).last() == line);
        let eq = crate::text::find_first(&chars, a, b, '=');
        if eq == b - a {
            proof {
                lemma_read_lines_fails(lines, k as int + 1);
            }
            return None;
        }
        let key_end = a + eq;
        assert(line.take(eq as int) =~= s.subrange(a as int, key_end as int));
        assert(line.skip(eq + 1) =~= s.subrange(key_end + 1, b as int));
        let value = crate::text::string_of(&chars, key_end + 1, b);
        if crate::text::chars_eq_str(&chars, a, key_end, "brightness") {
            brightness = Some(value);
        } else if crate::text::chars_eq_str(&chars, a, key_end, "filter") {
            filter = BrightnessFilter::from_name(value.as_str());
        } else if crate::text::chars_eq_str(&chars, a, key_end, "gamma-red") {
            gamma_red = Some(value);
        } else if crate::text::chars_eq_str(&chars, a, key_end, "gamma-green") {
            gamma_green = Some(value);
        } else if crate::text::chars_eq_str(&chars, a, key_end, "gamma-blue") {
            gamma_blue = Some(value);
        } else if crate::text::chars_eq_str(&chars, a, key_end, "base-red") {
            base_red = parse_channel(value.as_str());
        } else if crate::text::chars_eq_str(&chars, a, key_end, "base-green") {
            base_green = parse_channel(value.as_str());
        } else if crate::text::chars_eq_str(&chars, a, key_end, "base-blue") {
            base_blue = parse_channel(value.as_str());
        } else if crate::text::chars_eq_str(&chars, a, key_end, "red") {
            legacy_red = parse_channel(value.as_str());
        } else if crate::text::chars_eq_str(&chars, a, key_end, "green") {
            legacy_green = parse_channel(value.as_str());
        } else if crate::text::chars_eq_str(&chars, a, key_end, "blue") {
            legacy_blue = parse_channel(value.as_str());
        }
        k = k + 1;
    }
    assert(lines.take(k as int) =~= lines);
    let brightness = match brightness {
        Some(b) => b,
        None => return None,
    };
    let red = match base_red {
        Some(c) => c,
        None => match legacy_red {
            Some(c) => c,
            None => return None,
        },
    };
    let green = match base_green {
        Some(c) => c,
        None => match legacy_green {
            Some(c) => c,
            None => return None,
        },
    };
    let blue = match base_blue {
        Some(c) => c,
        None => match legacy_blue {
            Some(c) => c,
            None => return None,
        },
    };
    let filter = match filter {
        Some(f) => f,
        None => BrightnessFilter::Linear,
    };
    Some(
        SavedColorRecord {
            brightness,
            filter,
            gamma_red,
            gamma_green,
            gamma_blue,
            base_gamma: Gamma { red, green, blue },
        },
    )
}

proof fn lemma_read_lines_fails(lines: Seq<Seq<char>>, k: int)
    requires
        0 <= k <= lines.len(),
        read_lines(lines.take(k)) is None,
    ensures
        read_lines(lines) is None,
    decreases lines.len() - k,
{
    if k < lines.len() {
        assert(lines.take(k + 1).drop_last() =~= lines.take(k));
        lemma_read_lines_fails(lines, k + 1);
    } else {
        assert(lines.take(k) =~= lines);
    }
}

/// The text of a saved state; the numbers come as text (`brightness` and the
/// three gamma values, as `f64` displays them).
pub open spec fn serialize_spec(
    brightness: Seq<char>,
    filter: BrightnessFilter,
    red: Seq<char>,
    green: Seq<char>,
    blue: Seq<char>,
    base: Gamma,
) -> Seq<char> {
    "brightness="@ + brightness + "\n"@ + "filter="@ + filter.spec_name() + "\n"@ + "gamma-red="@ + red + "\n"@
        + "gamma-green="@ + green + "\n"@ + "gamma-blue="@ + blue + "\n"@ + "base-red="@ + serialize_channel_spec(
        base.red@,
    ) + "\n"@ + "base-green="@ + serialize_channel_spec(base.green@) + "\n"@ + "base-blue="@
        + serialize_channel_spec(base.blue@) + "\n"@
}

impl SavedColorState {
    /// The saved state of a record whose numbers have been read as `f64` bit
    /// patterns; a gamma value that is missing or unreadable is one.
    pub fn from_record(record: SavedColorRecord, brightness: u64, red: Option<u64>, green: Option<u64>, blue: Option<
        u64,
    >) -> (r: SavedColorState)
        ensures
            r.brightness == brightness,
            r.filter == record.filter,
            r.gamma_adjustment == (GammaAdjustment {
                red: crate::cli::apply::or_one(red),
                green: crate::cli::apply::or_one(green),
                blue: crate::cli::apply::or_one(blue),
            }),
            r.base_gamma@ == record.base_gamma@,
    {
        let one = |v: Option<u64>| -> (r: u64)
            ensures
                r == crate::cli::apply::or_one(v),
            {
                match v {
                    Some(x) => x,
                    None => ONE_BITS,
                }
            };
        SavedColorState {
            brightness,
            filter: record.filter,
            gamma_adjustment: GammaAdjustment { red: one(red), green: one(green), blue: one(blue) },
            base_gamma: record.base_gamma,
        }
    }

    /// The state file's text, given the text of its numbers.
    pub fn serialize(&self, brightness: &str, red: &str, green: &str, blue: &str) -> (r: String)
        ensures
            r@ == serialize_spec(brightness@, self.filter, red@, green@, blue@, self.base_gamma),
    {
        let mut r = "brightness=".to_owned();
        push_str(&mut r, brightness);
        push_str(&mut r, "\n");
        push_str(&mut r, "filter=");
        push_str(&mut r, self.filter.as_str());
        push_str(&mut r, "\n");
        push_str(&mut r, "gamma-red=");
        push_str(&mut r, red);
        push_str(&mut r, "\n");
        push_str(&mut r, "gamma-green=");
        push_str(&mut r, green);
        push_str(&mut r, "\n");
        push_str(&mut r, "gamma-blue=");
        push_str(&mut r, blue);
        push_str(&mut r, "\n");
        push_str(&mut r, "base-red=");
        push_str(&mut r, serialize_channel(&self.base_gamma.red).as_str());
        push_str(&mut r, "\n");
        push_str(&mut r, "base-green=");
        push_str(&mut r, serialize_channel(&self.base_gamma.green).as_str());
        push_str(&mut r, "\n");
        push_str(&mut r, "base-blue=");
        push_str(&mut r, serialize_channel(&self.base_gamma.blue).as_str());
        push_str(&mut r, "\n");
        r
    }
}

/// The gamma ramp to apply a new color to: the saved base ramp where the
/// output still shows the saved color (`applied`, the saved base ramp with
/// the saved color applied, agrees with the current ramp), else the current ramp.
pub fn resolve_base_gamma(current_gamma: &Gamma, state: Option<&SavedColorState>, applied: Option<&Gamma>) -> (r: Gamma)
    ensures
        match (state, applied) {
            (Some(s), Some(a)) => if current_gamma.spec_approx_eq(a) {
                r@ == s.base_gamma@
            } else {
                r@ == current_gamma@
            },
            _ => r@ == current_gamma@,
        },
{
    match (state, applied) {
        (Some(s), Some(a)) => if current_gamma.approx_eq(a) {
            s.base_gamma.duplicate()
        } else {
            current_gamma.duplicate()
        },
        _ => current_gamma.duplicate(),
    }
}

/// The saved color, where the output still shows it.
pub fn matching_state(current_gamma: &Gamma, state: Option<&SavedColorState>, applied: Option<&Gamma>) -> (r: Option<
    CurrentColor,
>)
    ensures
        match (state, applied) {
            (Some(s), Some(a)) => if current_gamma.spec_approx_eq(a) {
                r == Some(
                    CurrentColor {
                        state: CurrentColorState::Managed,
                        brightness: Some(s.brightness),
                        filter: Some(s.filter),
                        gamma_adjustment: Some(s.gamma_adjustment),
                    },
                )
            } else {
                r is None
            },
            _ => r is None,
        },
{
    match (state, applied) {
        (Some(s), Some(a)) => if current_gamma.approx_eq(a) {
            Some(CurrentColor::managed(s.brightness, s.filter, s.gamma_adjustment))
        } else {
            None
        },
        _ => None,
    }
}

/// The color an output shows: the saved one where it still matches, else the
/// unchanged color where the ramp is the identity, else unknown.
pub fn current_color(current_gamma: &Gamma, state: Option<&SavedColorState>, applied: Option<&Gamma>) -> (r:
    CurrentColor)
    ensures
        match (state, applied) {
            (Some(s), Some(a)) if current_gamma.spec_approx_eq(a) => r == CurrentColor {
                state: CurrentColorState::Managed,
                brightness: Some(s.brightness),
                filter: Some(s.filter),
                gamma_adjustment: Some(s.gamma_adjustment),
            },
            _ => if current_gamma.spec_is_identity() {
                r.state == CurrentColorState::Identity && r.brightness == Some(ONE_BITS) && r.filter == Some(
                    BrightnessFilter::Linear,
                ) && r.gamma_adjustment == Some(GammaAdjustment { red: ONE_BITS, green: ONE_BITS, blue: ONE_BITS })
            } else {
                r.state == CurrentColorState::Unknown && r.brightness is None && r.filter is None
                    && r.gamma_adjustment is None
            },
        },
{
    if let Some(c) = matching_state(current_gamma, state, applied) {
        return c;
    }
    if current_gamma.is_identity() {
        return CurrentColor::identity();
    }
    CurrentColor::unknown()
}

// ---------------------------------------------------------------------------
// Reading back a saved state
// ---------------------------------------------------------------------------

/// A number's text that keeps to its line of a state file: no line break in
/// it, and no carriage return at its end.
pub open spec fn stays_on_line(v: Seq<char>) -> bool {
    !v.contains('\n') && !(v.len() > 0 && v.last() == '\r')
}

/// The text of lines, each followed by a newline.
pub open spec fn lines_text(lines: Seq<Seq<char>>) -> Seq<char>
    decreases lines.len(),
{
    if lines.len() == 0 {
        Seq::empty()
    } else {
        lines_text(lines.drop_last()) + lines.last() + seq!['\n']
    }
}

proof fn lemma_split_lines(lines: Seq<Seq<char>>)
    requires
        forall|i: int| 0 <= i < lines.len() ==> !(#[trigger] lines[i]).contains('\n'),
    ensures
        split_on(lines_text(lines), '\n') == lines.push(Seq::empty()),
    decreases lines.len(),
{
    if lines.len() == 0 {
        assert(split_on(Seq::<char>::empty(), '\n') =~= seq![Seq::<char>::empty()]);
        assert(lines.push(Seq::empty()) =~= seq![Seq::<char>::empty()]);
    } else {
        let front = lines.drop_last();
        let last = lines.last();
        assert forall|i: int| 0 <= i < front.len() implies !(#[trigger] front[i]).contains('\n') by {
            assert(front[i] == lines[i]);
        }
        lemma_split_lines(front);
        assert(!last.contains('\n')) by {
            assert(last == lines[lines.len() - 1]);
        }
        let t = lines_text(front);
        lemma_split_append(t, last, '\n');
        assert(Seq::<char>::empty() + last =~= last);
        assert(front.push(Seq::empty()).update(front.len() as int, last) =~= lines);
        let whole = t + last + seq!['\n'];
        assert(whole.drop_last() =~= t + last);
        assert(whole.last() == '\n');
        assert(lines_text(lines) == whole);
    }
}

proof fn lemma_lines_of_text(lines: Seq<Seq<char>>)
    requires
        forall|i: int| 0 <= i < lines.len() ==> !(#[trigger] lines[i]).contains('\n'),
        forall|i: int| 0 <= i < lines.len() ==> !((#[trigger] lines[i]).len() > 0 && lines[i].last() == '\r'),
    ensures
        lines_spec(lines_text(lines)) == lines,
{
    lemma_split_lines(lines);
    let parts = split_on(lines_text(lines), '\n');
    assert(parts[lines.len() as int].len() == 0);
    assert forall|i: int| 0 <= i < lines.len() implies strip_cr(parts[i]) == lines[i] by {
        assert(parts[i] == lines[i]);
    }
    assert(lines_spec(lines_text(lines)) =~= lines);
}

proof fn lemma_key_line(key_eq: Seq<char>, key: Seq<char>, v: Seq<char>)
    requires
        key_eq =~= key.push('='),
        forall|j: int| 0 <= j < key.len() ==> key[j] != '=',
    ensures
        crate::text::split_once_spec(key_eq + v, '=') == Some((key, v)),
{
    let s = key_eq + v;
    assert forall|j: int| 0 <= j < key.len() implies s[j] != '=' by {
        assert(s[j] == key[j]);
    }
    assert(s[key.len() as int] == '=');
    crate::text::lemma_first_index_of(s, '=', key.len() as int);
    assert(s.take(key.len() as int) =~= key);
    assert(s.skip(key.len() as int + 1) =~= v);
}

proof fn lemma_brightness_line(f: SavedFields, v: Seq<char>)
    ensures
        read_line(f, "brightness="@ + v) == Some(SavedFields { brightness: Some(v), ..f }),
{
    reveal_strlit("brightness=");
    reveal_strlit("brightness");
    lemma_key_line("brightness="@, "brightness"@, v);
}

proof fn lemma_filter_line(f: SavedFields, v: Seq<char>)
    ensures
        read_line(f, "filter="@ + v) == Some(SavedFields { filter: BrightnessFilter::spec_from_name(v), ..f }),
{
    reveal_strlit("filter=");
    reveal_strlit("filter");
    reveal_strlit("brightness");
    assert("filter"@.len() != "brightness"@.len());
    lemma_key_line("filter="@, "filter"@, v);
}

proof fn lemma_gamma_red_line(f: SavedFields, v: Seq<char>)
    ensures
        read_line(f, "gamma-red="@ + v) == Some(SavedFields { gamma_red: Some(v), ..f }),
{
    reveal_strlit("gamma-red=");
    reveal_strlit("gamma-red");
    reveal_strlit("brightness");
    reveal_strlit("filter");
    assert("gamma-red"@.len() != "brightness"@.len());
    assert("gamma-red"@.len() != "filter"@.len());
    lemma_key_line("gamma-red="@, "gamma-red"@, v);
}

proof fn lemma_gamma_green_line(f: SavedFields, v: Seq<char>)
    ensures
        read_line(f, "gamma-green="@ + v) == Some(SavedFields { gamma_green: Some(v), ..f }),
{
    reveal_strlit("gamma-green=");
    reveal_strlit("gamma-green");
    reveal_strlit("brightness");
    reveal_strlit("filter");
    reveal_strlit("gamma-red");
    assert("gamma-green"@.len() != "brightness"@.len());
    assert("gamma-green"@.len() != "filter"@.len());
    assert("gamma-green"@.len() != "gamma-red"@.len());
    lemma_key_line("gamma-green="@, "gamma-green"@, v);
}

proof fn lemma_gamma_blue_line(f: SavedFields, v: Seq<char>)
    ensures
        read_line(f, "gamma-blue="@ + v) == Some(SavedFields { gamma_blue: Some(v), ..f }),
{
    reveal_strlit("gamma-blue=");
    reveal_strlit("gamma-blue");
    reveal_strlit("brightness");
    reveal_strlit("filter");
    reveal_strlit("gamma-red");
    reveal_strlit("gamma-green");
    assert("gamma-blue"@[0] != "brightness"@[0]);
    assert("gamma-blue"@.len() != "filter"@.len());
    assert("gamma-blue"@.len() != "gamma-red"@.len());
    assert("gamma-blue"@.len() != "gamma-green"@.len());
    lemma_key_line("gamma-blue="@, "gamma-blue"@, v);
}

proof fn lemma_base_red_line(f: SavedFields, v: Seq<char>)
    ensures
        read_line(f, "base-red="@ + v) == Some(SavedFields { base_red: parse_channel_spec(v), ..f }),
{
    reveal_strlit("base-red=");
    reveal_strlit("base-red");
    reveal_strlit("brightness");
    reveal_strlit("filter");
    reveal_strlit("gamma-red");
    reveal_strlit("gamma-green");
    reveal_strlit("gamma-blue");
    assert("base-red"@.len() != "brightness"@.len());
    assert("base-red"@.len() != "filter"@.len());
    assert("base-red"@.len() != "gamma-red"@.len());
    assert("base-red"@.len() != "gamma-green"@.len());
    assert("base-red"@.len() != "gamma-blue"@.len());
    lemma_key_line("base-red="@, "base-red"@, v);
}

proof fn lemma_base_green_line(f: SavedFields, v: Seq<char>)
    ensures
        read_line(f, "base-green="@ + v) == Some(SavedFields { base_green: parse_channel_spec(v), ..f }),
{
    reveal_strlit("base-green=");
    reveal_strlit("base-green");
    reveal_strlit("brightness");
    reveal_strlit("filter");
    reveal_strlit("gamma-red");
    reveal_strlit("gamma-green");
    reveal_strlit("gamma-blue");
    reveal_strlit("base-red");
    assert("base-green"@[1] != "brightness"@[1]);
    assert("base-green"@.len() != "filter"@.len());
    assert("base-green"@.len() != "gamma-red"@.len());
    assert("base-green"@.len() != "gamma-green"@.len());
    assert("base-green"@[0] != "gamma-blue"@[0]);
    assert("base-green"@.len() != "base-red"@.len());
    lemma_key_line("base-green="@, "base-green"@, v);
}

proof fn lemma_base_blue_line(f: SavedFields, v: Seq<char>)
    ensures
        read_line(f, "base-blue="@ + v) == Some(SavedFields { base_blue: parse_channel_spec(v), ..f }),
{
    reveal_strlit("base-blue=");
    reveal_strlit("base-blue");
    reveal_strlit("brightness");
    reveal_strlit("filter");
    reveal_strlit("gamma-red");
    reveal_strlit("gamma-green");
    reveal_strlit("gamma-blue");
    reveal_strlit("base-red");
    reveal_strlit("base-green");
    assert("base-blue"@.len() != "brightness"@.len());
    assert("base-blue"@.len() != "filter"@.len());
    assert("base-blue"@[0] != "gamma-red"@[0]);
    assert("base-blue"@.len() != "gamma-green"@.len());
    assert("base-blue"@.len() != "gamma-blue"@.len());
    assert("base-blue"@.len() != "base-red"@.len());
    assert("base-blue"@.len() != "base-green"@.len());
    lemma_key_line("base-blue="@, "base-blue"@, v);
}

/// The lines of a saved state's text, without their newlines.
pub open spec fn saved_lines(
    brightness: Seq<char>,
    filter: BrightnessFilter,
    red: Seq<char>,
    green: Seq<char>,
    blue: Seq<char>,
    base: Gamma,
) -> Seq<Seq<char>> {
    seq![
        "brightness="@ + brightness,
        "filter="@ + filter.spec_name(),
        "gamma-red="@ + red,
        "gamma-green="@ + green,
        "gamma-blue="@ + blue,
        "base-red="@ + serialize_channel_spec(base.red@),
        "base-green="@ + serialize_channel_spec(base.green@),
        "base-blue="@ + serialize_channel_spec(base.blue@),
    ]
}

proof fn lemma_serialize_lines(
    brightness: Seq<char>,
    filter: BrightnessFilter,
    red: Seq<char>,
    green: Seq<char>,
    blue: Seq<char>,
    base: Gamma,
)
    ensures
        serialize_spec(brightness, filter, red, green, blue, base) == lines_text(
            saved_lines(brightness, filter, red, green, blue, base),
        ),
{
    let l = saved_lines(brightness, filter, red, green, blue, base);
    reveal_strlit("\n");
    assert("\n"@ =~= seq!['\n']);
    assert(l.take(1).drop_last() =~= l.take(0));
    assert(l.take(2).drop_last() =~= l.take(1));
    assert(l.take(3).drop_last() =~= l.take(2));
    assert(l.take(4).drop_last() =~= l.take(3));
    assert(l.take(5).drop_last() =~= l.take(4));
    assert(l.take(6).drop_last() =~= l.take(5));
    assert(l.take(7).drop_last() =~= l.take(6));
    assert(l.take(8).drop_last() =~= l.take(7));
    assert(l.take(0) =~= Seq::<Seq<char>>::empty());
    assert(l.take(8) =~= l);
    assert(l.take(1).last() == l[0]);
    assert(lines_text(l.take(1)) == lines_text(l.take(0)) + l[0] + seq!['\n']);
    assert(l.take(2).last() == l[1]);
    assert(lines_text(l.take(2)) == lines_text(l.take(1)) + l[1] + seq!['\n']);
    assert(l.take(3).last() == l[2]);
    assert(lines_text(l.take(3)) == lines_text(l.take(2)) + l[2] + seq!['\n']);
    assert(l.take(4).last() == l[3]);
    assert(lines_text(l.take(4)) == lines_text(l.take(3)) + l[3] + seq!['\n']);
    assert(l.take(5).last() == l[4]);
    assert(lines_text(l.take(5)) == lines_text(l.take(4)) + l[4] + seq!['\n']);
    assert(l.take(6).last() == l[5]);
    assert(lines_text(l.take(6)) == lines_text(l.take(5)) + l[5] + seq!['\n']);
    assert(l.take(7).last() == l[6]);
    assert(lines_text(l.take(7)) == lines_text(l.take(6)) + l[6] + seq!['\n']);
    assert(l.take(8).last() == l[7]);
    assert(lines_text(l.take(8)) == lines_text(l.take(7)) + l[7] + seq!['\n']);
    assert(serialize_spec(brightness, filter, red, green, blue, base) =~= lines_text(l.take(8)));
}

proof fn lemma_join_chars(parts: Seq<Seq<char>>, sep: char, k: int)
    requires
        forall|i: int, j: int|
            0 <= i < parts.len() && 0 <= j < parts[i].len() ==> crate::text::is_digit(#[trigger] parts[i][j]),
        0 <= k < join_on(parts, sep).len(),
    ensures
        crate::text::is_digit(join_on(parts, sep)[k]) || join_on(parts, sep)[k] == sep,
    decreases parts.len(),
{
    if parts.len() == 1 {
        assert(crate::text::is_digit(parts[0][k]));
    } else if parts.len() > 1 {
        let front = parts.drop_last();
        let head = join_on(front, sep);
        if k < head.len() {
            assert forall|i: int, j: int| 0 <= i < front.len() && 0 <= j < front[i].len() implies crate::text::is_digit(
                #[trigger] front[i][j],
            ) by {
                assert(front[i] == parts[i]);
            }
            lemma_join_chars(front, sep, k);
        } else if k > head.len() {
            let j = k - head.len() - 1;
            assert(join_on(parts, sep)[k] == parts.last()[j]);
            assert(crate::text::is_digit(parts[parts.len() - 1][j]));
        }
    }
}

proof fn lemma_channel_text_stays_on_line(channel: Seq<u16>)
    ensures
        stays_on_line(serialize_channel_spec(channel)),
{
    let parts = entry_texts(channel);
    let t = serialize_channel_spec(channel);
    assert forall|i: int, j: int| 0 <= i < parts.len() && 0 <= j < parts[i].len() implies crate::text::is_digit(
        #[trigger] parts[i][j],
    ) by {
        lemma_decimal_digits_value(channel[i] as nat);
    }
    assert forall|k: int| 0 <= k < t.len() implies t[k] != '\n' && t[k] != '\r' by {
        lemma_join_chars(parts, ',', k);
    }
}

/// Reading back the text of a saved state gives what was written: the numbers'
/// texts, the filter and the three base channels, where each number's text
/// keeps to its line.
pub proof fn lemma_saved_state_roundtrip(
    brightness: Seq<char>,
    filter: BrightnessFilter,
    red: Seq<char>,
    green: Seq<char>,
    blue: Seq<char>,
    base: Gamma,
)
    requires
        stays_on_line(brightness),
        stays_on_line(red),
        stays_on_line(green),
        stays_on_line(blue),
    ensures
        record_spec(serialize_spec(brightness, filter, red, green, blue, base)) == Some(
            SavedRecordView {
                brightness,
                filter,
                gamma_red: Some(red),
                gamma_green: Some(green),
                gamma_blue: Some(blue),
                red: base.red@,
                green: base.green@,
                blue: base.blue@,
            },
        ),
{
    let name = filter.spec_name();
    let r = serialize_channel_spec(base.red@);
    let g = serialize_channel_spec(base.green@);
    let b = serialize_channel_spec(base.blue@);
    let l = saved_lines(brightness, filter, red, green, blue, base);
    lemma_serialize_lines(brightness, filter, red, green, blue, base);
    lemma_channel_text_stays_on_line(base.red@);
    lemma_channel_text_stays_on_line(base.green@);
    lemma_channel_text_stays_on_line(base.blue@);
    crate::display_config::proxied_methods::lemma_brightness_filter_names(filter);
    assert(stays_on_line(name)) by {
        reveal_strlit("linear");
        reveal_strlit("gamma");
        reveal_strlit("filmic");
    }
    reveal_strlit("brightness=");
    reveal_strlit("filter=");
    reveal_strlit("gamma-red=");
    reveal_strlit("gamma-green=");
    reveal_strlit("gamma-blue=");
    reveal_strlit("base-red=");
    reveal_strlit("base-green=");
    reveal_strlit("base-blue=");
    lemma_line_stays("brightness="@, brightness);
    lemma_line_stays("filter="@, name);
    lemma_line_stays("gamma-red="@, red);
    lemma_line_stays("gamma-green="@, green);
    lemma_line_stays("gamma-blue="@, blue);
    lemma_line_stays("base-red="@, r);
    lemma_line_stays("base-green="@, g);
    lemma_line_stays("base-blue="@, b);
    assert forall|i: int| 0 <= i < l.len() implies !(#[trigger] l[i]).contains('\n') && !(l[i].len() > 0
        && l[i].last() == '\r') by {
        assert(i == 0 || i == 1 || i == 2 || i == 3 || i == 4 || i == 5 || i == 6 || i == 7);
    }
    lemma_lines_of_text(l);
    let f0 = no_fields();
    lemma_brightness_line(f0, brightness);
    let f1 = SavedFields { brightness: Some(brightness), ..f0 };
    lemma_filter_line(f1, name);
    let f2 = SavedFields { filter: Some(filter), ..f1 };
    lemma_gamma_red_line(f2, red);
    let f3 = SavedFields { gamma_red: Some(red), ..f2 };
    lemma_gamma_green_line(f3, green);
    let f4 = SavedFields { gamma_green: Some(green), ..f3 };
    lemma_gamma_blue_line(f4, blue);
    let f5 = SavedFields { gamma_blue: Some(blue), ..f4 };
    lemma_base_red_line(f5, r);
    lemma_channel_roundtrip(base.red@);
    let f6 = SavedFields { base_red: Some(base.red@), ..f5 };
    lemma_base_green_line(f6, g);
    lemma_channel_roundtrip(base.green@);
    let f7 = SavedFields { base_green: Some(base.green@), ..f6 };
    lemma_base_blue_line(f7, b);
    lemma_channel_roundtrip(base.blue@);
    let f8 = SavedFields { base_blue: Some(base.blue@), ..f7 };
    assert(l.take(1).drop_last() =~= l.take(0));
    assert(l.take(2).drop_last() =~= l.take(1));
    assert(l.take(3).drop_last() =~= l.take(2));
    assert(l.take(4).drop_last() =~= l.take(3));
    assert(l.take(5).drop_last() =~= l.take(4));
    assert(l.take(6).drop_last() =~= l.take(5));
    assert(l.take(7).drop_last() =~= l.take(6));
    assert(l.take(8).drop_last() =~= l.take(7));
    assert(l.take(0) =~= Seq::<Seq<char>>::empty());
    assert(l.take(8) =~= l);
    assert(l.take(1).last() == l[0]);
    assert(l.take(2).last() == l[1]);
    assert(l.take(3).last() == l[2]);
    assert(l.take(4).last() == l[3]);
    assert(l.take(5).last() == l[4]);
    assert(l.take(6).last() == l[5]);
    assert(l.take(7).last() == l[6]);
    assert(l.take(8).last() == l[7]);
    assert(read_lines(l.take(0)) == Some(f0));
    assert(read_lines(l.take(1)) == Some(f1));
    assert(read_lines(l.take(2)) == Some(f2));
    assert(read_lines(l.take(3)) == Some(f3));
    assert(read_lines(l.take(4)) == Some(f4));
    assert(read_lines(l.take(5)) == Some(f5));
    assert(read_lines(l.take(6)) == Some(f6));
    assert(read_lines(l.take(7)) == Some(f7));
    assert(read_lines(l) == Some(f8));
}

proof fn lemma_line_stays(key: Seq<char>, v: Seq<char>)
    requires
        key.len() > 0,
        forall|j: int| 0 <= j < key.len() ==> key[j] != '\n' && key[j] != '\r',
        stays_on_line(v),
    ensures
        stays_on_line(key + v),
{
    let s = key + v;
    assert forall|w: int| 0 <= w < s.len() implies s[w] != '\n' by {
        if w >= key.len() {
            assert(s[w] == v[w - key.len()]);
        }
    }
    if v.len() > 0 {
        assert(s.last() == v.last());
    } else {
        assert(s.last() == key.last());
    }
}

} // verus!

