//! The canonical record format: encoding a generator as ten named fields,
//! and field-validated decoding from the named form and the positional
//! form.

use vstd::prelude::*;

use crate::errors::SignalError;
use crate::fixed::{Fixed, abs_int};
use crate::signal::{BOUND_RAW_LIMIT, PARAM_RAW_LIMIT};
use crate::signal_generator::SignalGenerator;
use crate::signal_type::{SignalType, name_of, parse_name, eq_str, lemma_name_round_trip};

verus! {

/// One scalar carried by a record field.
#[derive(Debug, Clone, PartialEq)]
pub enum Value {
    /// A string, as the `type` field carries.
    Text(String),
    /// A real quantity, as the bounds and the waveform parameters carry.
    Real(Fixed),
    /// A small unsigned integer, as the `num_bits` field carries.
    Bits(u8),
    /// A boolean, as the `is_signed` field carries.
    Flag(bool),
}

/// A decode failure with the field it concerns named as a character
/// sequence; `SignalError` mirrors it with the name as a `String`.
pub enum DecodeFailure {
    InvalidRange,
    InvalidSignalType,
    Missing(Seq<char>),
    Duplicate(Seq<char>),
    Unknown(Seq<char>),
    WrongValue(Seq<char>),
    WrongLength,
}

/// Whether the reported error is the given failure, name for name.
pub open spec fn matches_failure(e: SignalError, f: DecodeFailure) -> bool {
    match f {
        DecodeFailure::InvalidRange => e == SignalError::InvalidRange,
        DecodeFailure::InvalidSignalType => e == SignalError::InvalidSignalType,
        DecodeFailure::Missing(q) => e matches SignalError::MissingField(n) && n@ == q,
        DecodeFailure::Duplicate(q) => e matches SignalError::DuplicateField(n) && n@ == q,
        DecodeFailure::Unknown(q) => e matches SignalError::UnknownField(n) && n@ == q,
        DecodeFailure::WrongValue(q) => e matches SignalError::InvalidFieldValue(n) && n@ == q,
        DecodeFailure::WrongLength => e == SignalError::InvalidLength,
    }
}

/// The canonical field names, in emission order.
pub open spec fn field_name(i: int) -> Seq<char> {
    if i == 0 {
        "type"@
    } else if i == 1 {
        "minimum"@
    } else if i == 2 {
        "maximum"@
    } else if i == 3 {
        "amplitude"@
    } else if i == 4 {
        "period"@
    } else if i == 5 {
        "phase"@
    } else if i == 6 {
        "num_bits"@
    } else if i == 7 {
        "is_signed"@
    } else if i == 8 {
        "scale"@
    } else {
        "offset"@
    }
}

/// The fields gathered so far while scanning a named record.
#[derive(Clone, Copy)]
pub struct ScanState {
    pub signal_type: Option<SignalType>,
    pub minimum: Option<Fixed>,
    pub maximum: Option<Fixed>,
    pub amplitude: Option<Fixed>,
    pub period: Option<Fixed>,
    pub phase: Option<Fixed>,
    pub num_bits: Option<u8>,
    pub is_signed: Option<bool>,
    pub scale: Option<Fixed>,
    pub offset: Option<Fixed>,
}

/// The scan state with nothing gathered.
pub open spec fn empty_scan_state() -> ScanState {
    ScanState {
        signal_type: None,
        minimum: None,
        maximum: None,
        amplitude: None,
        period: None,
        phase: None,
        num_bits: None,
        is_signed: None,
        scale: None,
        offset: None,
    }
}

/// Whether `v` is a real quantity within the given magnitude cap.
pub open spec fn real_within(v: Value, cap: int) -> bool {
    v matches Value::Real(x) && abs_int(x.raw as int) <= cap
}

/// One step of the named-record scan: file the value under its field,
/// rejecting a duplicate, an unknown name, or a value of the wrong kind
/// or outside the supported magnitude.
pub open spec fn apply_entry(st: ScanState, name: Seq<char>, v: Value) -> Result<
    ScanState,
    DecodeFailure,
> {
    if name == "type"@ {
        if st.signal_type is Some {
            Err(DecodeFailure::Duplicate(name))
        } else {
            match v {
                Value::Text(s) => match parse_name(s@) {
                    Some(t) => Ok(ScanState { signal_type: Some(t), ..st }),
                    None => Err(DecodeFailure::InvalidSignalType),
                },
                _ => Err(DecodeFailure::WrongValue(name)),
            }
        }
    } else if name == "minimum"@ {
        if st.minimum is Some {
            Err(DecodeFailure::Duplicate(name))
        } else if real_within(v, BOUND_RAW_LIMIT as int) {
            Ok(ScanState { minimum: Some(v->Real_0), ..st })
        } else {
            Err(DecodeFailure::WrongValue(name))
        }
    } else if name == "maximum"@ {
        if st.maximum is Some {
            Err(DecodeFailure::Duplicate(name))
        } else if real_within(v, BOUND_RAW_LIMIT as int) {
            Ok(ScanState { maximum: Some(v->Real_0), ..st })
        } else {
            Err(DecodeFailure::WrongValue(name))
        }
    } else if name == "amplitude"@ {
        if st.amplitude is Some {
            Err(DecodeFailure::Duplicate(name))
        } else if real_within(v, PARAM_RAW_LIMIT as int) {
            Ok(ScanState { amplitude: Some(v->Real_0), ..st })
        } else {
            Err(DecodeFailure::WrongValue(name))
        }
    } else if name == "period"@ {
        if st.period is Some {
            Err(DecodeFailure::Duplicate(name))
        } else if real_within(v, PARAM_RAW_LIMIT as int) {
            Ok(ScanState { period: Some(v->Real_0), ..st })
        } else {
            Err(DecodeFailure::WrongValue(name))
        }
    } else if name == "phase"@ {
        if st.phase is Some {
            Err(DecodeFailure::Duplicate(name))
        } else if real_within(v, PARAM_RAW_LIMIT as int) {
            Ok(ScanState { phase: Some(v->Real_0), ..st })
        } else {
            Err(DecodeFailure::WrongValue(name))
        }
    } else if name == "num_bits"@ {
        if st.num_bits is Some {
            Err(DecodeFailure::Duplicate(name))
        } else if v matches Value::Bits(b) && 1 <= b <= 63 {
            Ok(ScanState { num_bits: Some(v->Bits_0), ..st })
        } else {
            Err(DecodeFailure::WrongValue(name))
        }
    } else if name == "is_signed"@ {
        if st.is_signed is Some {
            Err(DecodeFailure::Duplicate(name))
        } else if v matches Value::Flag(_) {
            Ok(ScanState { is_signed: Some(v->Flag_0), ..st })
        } else {
            Err(DecodeFailure::WrongValue(name))
        }
    } else if name == "scale"@ {
        if st.scale is Some {
            Err(DecodeFailure::Duplicate(name))
        } else if real_within(v, PARAM_RAW_LIMIT as int) && v->Real_0.raw != 0 {
            Ok(ScanState { scale: Some(v->Real_0), ..st })
        } else {
            Err(DecodeFailure::WrongValue(name))
        }
    } else if name == "offset"@ {
        if st.offset is Some {
            Err(DecodeFailure::Duplicate(name))
        } else if real_within(v, PARAM_RAW_LIMIT as int) {
            Ok(ScanState { offset: Some(v->Real_0), ..st })
        } else {
            Err(DecodeFailure::WrongValue(name))
        }
    } else {
        Err(DecodeFailure::Unknown(name))
    }
}

/// The named-record scan over all entries, in order; the first failing
/// entry decides the outcome.
pub open spec fn scan_entries(s: Seq<(String, Value)>) -> Result<ScanState, DecodeFailure>
    decreases s.len(),
{
    if s.len() == 0 {
        Ok(empty_scan_state())
    } else {
        match scan_entries(s.drop_last()) {
            Err(e) => Err(e),
            Ok(st) => apply_entry(st, s.last().0@, s.last().1),
        }
    }
}

/// The canonical-order index of the first field the scan never saw.
pub open spec fn first_missing(st: ScanState) -> Option<int> {
    if st.signal_type is None {
        Some(0int)
    } else if st.minimum is None {
        Some(1int)
    } else if st.maximum is None {
        Some(2int)
    } else if st.amplitude is None {
        Some(3int)
    } else if st.period is None {
        Some(4int)
    } else if st.phase is None {
        Some(5int)
    } else if st.num_bits is None {
        Some(6int)
    } else if st.is_signed is None {
        Some(7int)
    } else if st.scale is None {
        Some(8int)
    } else if st.offset is None {
        Some(9int)
    } else {
        None
    }
}

/// Construction from a completely gathered scan state.
pub open spec fn finish_scan(st: ScanState) -> Result<SignalGenerator, DecodeFailure>
    recommends
        first_missing(st) is None,
{
    if st.signal_type->Some_0 != SignalType::Constant && st.period->Some_0.raw == 0 {
        Err(DecodeFailure::WrongValue("period"@))
    } else {
        match SignalGenerator::spec_new(
            st.signal_type->Some_0,
            st.minimum->Some_0,
            st.maximum->Some_0,
            st.amplitude->Some_0,
            st.period->Some_0,
            st.phase->Some_0,
            st.num_bits->Some_0,
            st.is_signed->Some_0,
            st.scale->Some_0,
            st.offset->Some_0,
        ) {
            Ok(g) => Ok(g),
            Err(_) => Err(DecodeFailure::InvalidRange),
        }
    }
}

/// What decoding a named record yields: the scan's failure, the first
/// missing field, or the constructed generator.
pub open spec fn spec_decode_map(s: Seq<(String, Value)>) -> Result<
    SignalGenerator,
    DecodeFailure,
> {
    match scan_entries(s) {
        Err(e) => Err(e),
        Ok(st) => match first_missing(st) {
            Some(i) => Err(DecodeFailure::Missing(field_name(i))),
            None => finish_scan(st),
        },
    }
}

/// What decoding the positional (sequence) form yields: exactly ten
/// values, in emission order, checked in turn, then construction.
pub open spec fn spec_decode_seq(vs: Seq<Value>) -> Result<SignalGenerator, DecodeFailure> {
    if vs.len() != 10 {
        Err(DecodeFailure::WrongLength)
    } else if !(vs[0] matches Value::Text(_)) {
        Err(DecodeFailure::WrongValue("type"@))
    } else if parse_name(vs[0]->Text_0@) is None {
        Err(DecodeFailure::InvalidSignalType)
    } else if !real_within(vs[1], BOUND_RAW_LIMIT as int) {
        Err(DecodeFailure::WrongValue("minimum"@))
    } else if !real_within(vs[2], BOUND_RAW_LIMIT as int) {
        Err(DecodeFailure::WrongValue("maximum"@))
    } else if !real_within(vs[3], PARAM_RAW_LIMIT as int) {
        Err(DecodeFailure::WrongValue("amplitude"@))
    } else if !real_within(vs[4], PARAM_RAW_LIMIT as int) {
        Err(DecodeFailure::WrongValue("period"@))
    } else if !real_within(vs[5], PARAM_RAW_LIMIT as int) {
        Err(DecodeFailure::WrongValue("phase"@))
    } else if !(vs[6] matches Value::Bits(b) && 1 <= b <= 63) {
        Err(DecodeFailure::WrongValue("num_bits"@))
    } else if !(vs[7] matches Value::Flag(_)) {
        Err(DecodeFailure::WrongValue("is_signed"@))
    } else if !(real_within(vs[8], PARAM_RAW_LIMIT as int) && vs[8]->Real_0.raw != 0) {
        Err(DecodeFailure::WrongValue("scale"@))
    } else if !real_within(vs[9], PARAM_RAW_LIMIT as int) {
        Err(DecodeFailure::WrongValue("offset"@))
    } else {
        let t = parse_name(vs[0]->Text_0@)->Some_0;
        if t != SignalType::Constant && vs[4]->Real_0.raw == 0 {
            Err(DecodeFailure::WrongValue("period"@))
        } else {
            match SignalGenerator::spec_new(
                t,
                vs[1]->Real_0,
                vs[2]->Real_0,
                vs[3]->Real_0,
                vs[4]->Real_0,
                vs[5]->Real_0,
                vs[6]->Bits_0,
                vs[7]->Flag_0,
                vs[8]->Real_0,
                vs[9]->Real_0,
            ) {
                Ok(g) => Ok(g),
                Err(_) => Err(DecodeFailure::InvalidRange),
            }
        }
    }
}

/// Whether `s` is the canonical encoding of `g`: the ten fields, in
/// emission order, each carrying the generator's value.
pub open spec fn is_encoding(s: Seq<(String, Value)>, g: SignalGenerator) -> bool {
    &&& s.len() == 10
    &&& s[0].0@ == "type"@
    &&& (s[0].1 matches Value::Text(n) && n@ == name_of(g.inner.signal_type))
    &&& s[1].0@ == "minimum"@ && s[1].1 == Value::Real(g.inner.minimum)
    &&& s[2].0@ == "maximum"@ && s[2].1 == Value::Real(g.inner.maximum)
    &&& s[3].0@ == "amplitude"@ && s[3].1 == Value::Real(g.inner.amplitude)
    &&& s[4].0@ == "period"@ && s[4].1 == Value::Real(g.inner.period)
    &&& s[5].0@ == "phase"@ && s[5].1 == Value::Real(g.inner.phase)
    &&& s[6].0@ == "num_bits"@ && s[6].1 == Value::Bits(g.inner.num_bits)
    &&& s[7].0@ == "is_signed"@ && s[7].1 == Value::Flag(g.inner.is_signed)
    &&& s[8].0@ == "scale"@ && s[8].1 == Value::Real(g.inner.scale)
    &&& s[9].0@ == "offset"@ && s[9].1 == Value::Real(g.inner.offset)
}

/// Every value a completed scan holds is within the supported domain.
pub open spec fn state_caps(st: ScanState) -> bool {
    &&& st.minimum matches Some(x) ==> abs_int(x.raw as int) <= BOUND_RAW_LIMIT
    &&& st.maximum matches Some(x) ==> abs_int(x.raw as int) <= BOUND_RAW_LIMIT
    &&& st.amplitude matches Some(x) ==> abs_int(x.raw as int) <= PARAM_RAW_LIMIT
    &&& st.period matches Some(x) ==> abs_int(x.raw as int) <= PARAM_RAW_LIMIT
    &&& st.phase matches Some(x) ==> abs_int(x.raw as int) <= PARAM_RAW_LIMIT
    &&& st.scale matches Some(x) ==> abs_int(x.raw as int) <= PARAM_RAW_LIMIT && x.raw != 0
    &&& st.offset matches Some(x) ==> abs_int(x.raw as int) <= PARAM_RAW_LIMIT
    &&& st.num_bits matches Some(b) ==> 1 <= b <= 63
}

/// Scanning one more entry keeps the scan's result in step.
pub proof fn lemma_scan_unfold(s: Seq<(String, Value)>, j: int)
    requires
        0 <= j < s.len(),
    ensures
        scan_entries(s.take(j + 1)) == (match scan_entries(s.take(j)) {
            Err(e) => Err(e),
            Ok(st) => apply_entry(st, s[j].0@, s[j].1),
        }),
{
    let t = s.take(j + 1);
    assert(t.drop_last() =~= s.take(j));
    assert(t.last() == s[j]);
}

/// Once a prefix of the scan has failed, the whole scan fails the same way.
pub proof fn lemma_scan_error_stays(s: Seq<(String, Value)>, j: int, f: DecodeFailure)
    requires
        0 <= j <= s.len(),
        scan_entries(s.take(j)) == Err::<ScanState, DecodeFailure>(f),
    ensures
        scan_entries(s) == Err::<ScanState, DecodeFailure>(f),
    decreases s.len() - j,
{
    if j == s.len() {
        assert(s.take(j) =~= s);
    } else {
        lemma_scan_unfold(s, j);
        lemma_scan_error_stays(s, j + 1, f);
    }
}

/// The ten canonical field names are pairwise different strings.
pub proof fn lemma_field_names_distinct()
    ensures
        "type"@ != "minimum"@,
        "type"@ != "maximum"@,
        "type"@ != "amplitude"@,
        "type"@ != "period"@,
        "type"@ != "phase"@,
        "type"@ != "num_bits"@,
        "type"@ != "is_signed"@,
        "type"@ != "scale"@,
        "type"@ != "offset"@,
        "minimum"@ != "maximum"@,
        "minimum"@ != "amplitude"@,
        "minimum"@ != "period"@,
        "minimum"@ != "phase"@,
        "minimum"@ != "num_bits"@,
        "minimum"@ != "is_signed"@,
        "minimum"@ != "scale"@,
        "minimum"@ != "offset"@,
        "maximum"@ != "amplitude"@,
        "maximum"@ != "period"@,
        "maximum"@ != "phase"@,
        "maximum"@ != "num_bits"@,
        "maximum"@ != "is_signed"@,
        "maximum"@ != "scale"@,
        "maximum"@ != "offset"@,
        "amplitude"@ != "period"@,
        "amplitude"@ != "phase"@,
        "amplitude"@ != "num_bits"@,
        "amplitude"@ != "is_signed"@,
        "amplitude"@ != "scale"@,
        "amplitude"@ != "offset"@,
        "period"@ != "phase"@,
        "period"@ != "num_bits"@,
        "period"@ != "is_signed"@,
        "period"@ != "scale"@,
        "period"@ != "offset"@,
        "phase"@ != "num_bits"@,
        "phase"@ != "is_signed"@,
        "phase"@ != "scale"@,
        "phase"@ != "offset"@,
        "num_bits"@ != "is_signed"@,
        "num_bits"@ != "scale"@,
        "num_bits"@ != "offset"@,
        "is_signed"@ != "scale"@,
        "is_signed"@ != "offset"@,
        "scale"@ != "offset"@,
{
    reveal_strlit("type");
    reveal_strlit("minimum");
    reveal_strlit("maximum");
    reveal_strlit("amplitude");
    reveal_strlit("period");
    reveal_strlit("phase");
    reveal_strlit("num_bits");
    reveal_strlit("is_signed");
    reveal_strlit("scale");
    reveal_strlit("offset");
    assert("type"@.len() == 4);
    assert("minimum"@.len() == 7);
    assert("maximum"@.len() == 7);
    assert("amplitude"@.len() == 9);
    assert("period"@.len() == 6);
    assert("phase"@.len() == 5);
    assert("num_bits"@.len() == 8);
    assert("is_signed"@.len() == 9);
    assert("scale"@.len() == 5);
    assert("offset"@.len() == 6);
    assert("minimum"@[1] == 'i');
    assert("maximum"@[1] == 'a');
    assert("amplitude"@[0] == 'a');
    assert("is_signed"@[0] == 'i');
    assert("period"@[0] == 'p');
    assert("offset"@[0] == 'o');
    assert("phase"@[0] == 'p');
    assert("scale"@[0] == 's');
    assert("minimum"@ != "maximum"@);
    assert("amplitude"@ != "is_signed"@);
    assert("period"@ != "offset"@);
    assert("phase"@ != "scale"@);
}

/// Round trip: decoding the canonical encoding of any well-formed
/// generator gives back a generator equal to the original, field for
/// field.
pub proof fn lemma_encode_decode_round_trip(g: SignalGenerator, s: Seq<(String, Value)>)
    requires
        g.wf(),
        is_encoding(s, g),
    ensures
        spec_decode_map(s) == Ok::<SignalGenerator, DecodeFailure>(g),
{
    lemma_field_names_distinct();
    lemma_name_round_trip(g.inner.signal_type);
    let st0 = empty_scan_state();
    assert(s.take(0).len() == 0);
    assert(scan_entries(s.take(0)) == Ok::<ScanState, DecodeFailure>(st0));
    lemma_scan_unfold(s, 0);
    let st1 = ScanState { signal_type: Some(g.inner.signal_type), ..st0 };
    assert(apply_entry(st0, s[0].0@, s[0].1) == Ok::<ScanState, DecodeFailure>(st1));
    assert(scan_entries(s.take(1)) == Ok::<ScanState, DecodeFailure>(st1));
    lemma_scan_unfold(s, 1);
    let st2 = ScanState { minimum: Some(g.inner.minimum), ..st1 };
    assert(apply_entry(st1, s[1].0@, s[1].1) == Ok::<ScanState, DecodeFailure>(st2));
    assert(scan_entries(s.take(2)) == Ok::<ScanState, DecodeFailure>(st2));
    lemma_scan_unfold(s, 2);
    let st3 = ScanState { maximum: Some(g.inner.maximum), ..st2 };
    assert(apply_entry(st2, s[2].0@, s[2].1) == Ok::<ScanState, DecodeFailure>(st3));
    assert(scan_entries(s.take(3)) == Ok::<ScanState, DecodeFailure>(st3));
    lemma_scan_unfold(s, 3);
    let st4 = ScanState { amplitude: Some(g.inner.amplitude), ..st3 };
    assert(apply_entry(st3, s[3].0@, s[3].1) == Ok::<ScanState, DecodeFailure>(st4));
    assert(scan_entries(s.take(4)) == Ok::<ScanState, DecodeFailure>(st4));
    lemma_scan_unfold(s, 4);
    let st5 = ScanState { period: Some(g.inner.period), ..st4 };
    assert(apply_entry(st4, s[4].0@, s[4].1) == Ok::<ScanState, DecodeFailure>(st5));
    assert(scan_entries(s.take(5)) == Ok::<ScanState, DecodeFailure>(st5));
    lemma_scan_unfold(s, 5);
    let st6 = ScanState { phase: Some(g.inner.phase), ..st5 };
    assert(apply_entry(st5, s[5].0@, s[5].1) == Ok::<ScanState, DecodeFailure>(st6));
    assert(scan_entries(s.take(6)) == Ok::<ScanState, DecodeFailure>(st6));
    lemma_scan_unfold(s, 6);
    let st7 = ScanState { num_bits: Some(g.inner.num_bits), ..st6 };
    assert(apply_entry(st6, s[6].0@, s[6].1) == Ok::<ScanState, DecodeFailure>(st7));
    assert(scan_entries(s.take(7)) == Ok::<ScanState, DecodeFailure>(st7));
    lemma_scan_unfold(s, 7);
    let st8 = ScanState { is_signed: Some(g.inner.is_signed), ..st7 };
    assert(apply_entry(st7, s[7].0@, s[7].1) == Ok::<ScanState, DecodeFailure>(st8));
    assert(scan_entries(s.take(8)) == Ok::<ScanState, DecodeFailure>(st8));
    lemma_scan_unfold(s, 8);
    let st9 = ScanState { scale: Some(g.inner.scale), ..st8 };
    assert(apply_entry(st8, s[8].0@, s[8].1) == Ok::<ScanState, DecodeFailure>(st9));
    assert(scan_entries(s.take(9)) == Ok::<ScanState, DecodeFailure>(st9));
    lemma_scan_unfold(s, 9);
    let st10 = ScanState { offset: Some(g.inner.offset), ..st9 };
    assert(apply_entry(st9, s[9].0@, s[9].1) == Ok::<ScanState, DecodeFailure>(st10));
    assert(scan_entries(s.take(10)) == Ok::<ScanState, DecodeFailure>(st10));
    assert(s.take(10) =~= s);
    assert(scan_entries(s) == Ok::<ScanState, DecodeFailure>(st10));
    assert(first_missing(st10) is None);
    assert(finish_scan(st10) == Ok::<SignalGenerator, DecodeFailure>(g));
}

impl SignalGenerator {
    /// Decodes the named (map) form of the canonical record: all ten
    /// fields are required exactly once, in any order; an unknown field, a
    /// duplicate field, a missing field, an unparsable type string, and a
    /// value of the wrong kind or outside the supported domain are each
    /// rejected with their own condition.
    pub fn decode_map(entries: &Vec<(String, Value)>) -> (r: Result<SignalGenerator, SignalError>)
        ensures
            match spec_decode_map(entries@) {
                Ok(g) => r == Ok::<SignalGenerator, SignalError>(g),
                Err(f) => r matches Err(e) && matches_failure(e, f),
            },
            r matches Ok(g) ==> g.wf(),
    {
        let ghost s = entries@;
        let mut st = ScanState {
            signal_type: None,
            minimum: None,
            maximum: None,
            amplitude: None,
            period: None,
            phase: None,
            num_bits: None,
            is_signed: None,
            scale: None,
            offset: None,
        };
        let n = entries.len();
        for k in 0..n
            invariant
                n == s.len(),
                s == entries@,
                scan_entries(s.take(k as int)) == Ok::<ScanState, DecodeFailure>(st),
                state_caps(st),
        {
            proof {
                lemma_scan_unfold(s, k as int);
            }
            let name: &String = &entries[k].0;
            let v: &Value = &entries[k].1;
            if eq_str(name.as_str(), "type") {
                if st.signal_type.is_some() {
                    proof {
                        lemma_scan_error_stays(s, k + 1, DecodeFailure::Duplicate(name@));
                    }
                    return Err(SignalError::DuplicateField(name.clone()));
                }
                match v {
                    Value::Text(text) => match SignalType::try_from_string(text.as_str()) {
                        Some(t) => {
                            st = ScanState { signal_type: Some(t), ..st };
                        },
                        None => {
                            proof {
                                lemma_scan_error_stays(s, k + 1, DecodeFailure::InvalidSignalType);
                            }
                            return Err(SignalError::InvalidSignalType);
                        },
                    },
                    _ => {
                        proof {
                            lemma_scan_error_stays(s, k + 1, DecodeFailure::WrongValue(name@));
                        }
                        return Err(SignalError::InvalidFieldValue(name.clone()));
                    },
                }
            } else if eq_str(name.as_str(), "minimum") {
                if st.minimum.is_some() {
                    proof {
                        lemma_scan_error_stays(s, k + 1, DecodeFailure::Duplicate(name@));
                    }
                    return Err(SignalError::DuplicateField(name.clone()));
                }
                match v {
                    Value::Real(x) => {
                        if -BOUND_RAW_LIMIT <= x.raw && x.raw <= BOUND_RAW_LIMIT {
                            st = ScanState { minimum: Some(*x), ..st };
                        } else {
                            proof {
                                lemma_scan_error_stays(s, k + 1, DecodeFailure::WrongValue(name@));
                            }
                            return Err(SignalError::InvalidFieldValue(name.clone()));
                        }
                    },
                    _ => {
                        proof {
                            lemma_scan_error_stays(s, k + 1, DecodeFailure::WrongValue(name@));
                        }
                        return Err(SignalError::InvalidFieldValue(name.clone()));
                    },
                }
            } else if eq_str(name.as_str(), "maximum") {
                if st.maximum.is_some() {
                    proof {
                        lemma_scan_error_stays(s, k + 1, DecodeFailure::Duplicate(name@));
                    }
                    return Err(SignalError::DuplicateField(name.clone()));
                }
                match v {
                    Value::Real(x) => {
                        if -BOUND_RAW_LIMIT <= x.raw && x.raw <= BOUND_RAW_LIMIT {
                            st = ScanState { maximum: Some(*x), ..st };
                        } else {
                            proof {
                                lemma_scan_error_stays(s, k + 1, DecodeFailure::WrongValue(name@));
                            }
                            return Err(SignalError::InvalidFieldValue(name.clone()));
                        }
                    },
                    _ => {
                        proof {
                            lemma_scan_error_stays(s, k + 1, DecodeFailure::WrongValue(name@));
                        }
                        return Err(SignalError::InvalidFieldValue(name.clone()));
                    },
                }
            } else if eq_str(name.as_str(), "amplitude") {
                if st.amplitude.is_some() {
                    proof {
                        lemma_scan_error_stays(s, k + 1, DecodeFailure::Duplicate(name@));
                    }
                    return Err(SignalError::DuplicateField(name.clone()));
                }
                match v {
                    Value::Real(x) => {
                        if -PARAM_RAW_LIMIT <= x.raw && x.raw <= PARAM_RAW_LIMIT {
                            st = ScanState { amplitude: Some(*x), ..st };
                        } else {
                            proof {
                                lemma_scan_error_stays(s, k + 1, DecodeFailure::WrongValue(name@));
                            }
                            return Err(SignalError::InvalidFieldValue(name.clone()));
                        }
                    },
                    _ => {
                        proof {
                            lemma_scan_error_stays(s, k + 1, DecodeFailure::WrongValue(name@));
                        }
                        return Err(SignalError::InvalidFieldValue(name.clone()));
                    },
                }
            } else if eq_str(name.as_str(), "period") {
                if st.period.is_some() {
                    proof {
                        lemma_scan_error_stays(s, k + 1, DecodeFailure::Duplicate(name@));
                    }
                    return Err(SignalError::DuplicateField(name.clone()));
                }
                match v {
                    Value::Real(x) => {
                        if -PARAM_RAW_LIMIT <= x.raw && x.raw <= PARAM_RAW_LIMIT {
                            st = ScanState { period: Some(*x), ..st };
                        } else {
                            proof {
                                lemma_scan_error_stays(s, k + 1, DecodeFailure::WrongValue(name@));
                            }
                            return Err(SignalError::InvalidFieldValue(name.clone()));
                        }
                    },
                    _ => {
                        proof {
                            lemma_scan_error_stays(s, k + 1, DecodeFailure::WrongValue(name@));
                        }
                        return Err(SignalError::InvalidFieldValue(name.clone()));
                    },
                }
            } else if eq_str(name.as_str(), "phase") {
                if st.phase.is_some() {
                    proof {
                        lemma_scan_error_stays(s, k + 1, DecodeFailure::Duplicate(name@));
                    }
                    return Err(SignalError::DuplicateField(name.clone()));
                }
                match v {
                    Value::Real(x) => {
                        if -PARAM_RAW_LIMIT <= x.raw && x.raw <= PARAM_RAW_LIMIT {
                            st = ScanState { phase: Some(*x), ..st };
                        } else {
                            proof {
                                lemma_scan_error_stays(s, k + 1, DecodeFailure::WrongValue(name@));
                            }
                            return Err(SignalError::InvalidFieldValue(name.clone()));
                        }
                    },
                    _ => {
                        proof {
                            lemma_scan_error_stays(s, k + 1, DecodeFailure::WrongValue(name@));
                        }
                        return Err(SignalError::InvalidFieldValue(name.clone()));
                    },
                }
            } else if eq_str(name.as_str(), "num_bits") {
                if st.num_bits.is_some() {
                    proof {
                        lemma_scan_error_stays(s, k + 1, DecodeFailure::Duplicate(name@));
                    }
                    return Err(SignalError::DuplicateField(name.clone()));
                }
                match v {
                    Value::Bits(b) => {
                        if 1 <= *b && *b <= 63 {
                            st = ScanState { num_bits: Some(*b), ..st };
                        } else {
                            proof {
                                lemma_scan_error_stays(s, k + 1, DecodeFailure::WrongValue(name@));
                            }
                            return Err(SignalError::InvalidFieldValue(name.clone()));
                        }
                    },
                    _ => {
                        proof {
                            lemma_scan_error_stays(s, k + 1, DecodeFailure::WrongValue(name@));
                        }
                        return Err(SignalError::InvalidFieldValue(name.clone()));
                    },
                }
            } else if eq_str(name.as_str(), "is_signed") {
                if st.is_signed.is_some() {
                    proof {
                        lemma_scan_error_stays(s, k + 1, DecodeFailure::Duplicate(name@));
                    }
                    return Err(SignalError::DuplicateField(name.clone()));
                }
                match v {
                    Value::Flag(b) => {
                        st = ScanState { is_signed: Some(*b), ..st };
                    },
                    _ => {
                        proof {
                            lemma_scan_error_stays(s, k + 1, DecodeFailure::WrongValue(name@));
                        }
                        return Err(SignalError::InvalidFieldValue(name.clone()));
                    },
                }
            } else if eq_str(name.as_str(), "scale") {
                if st.scale.is_some() {
                    proof {
                        lemma_scan_error_stays(s, k + 1, DecodeFailure::Duplicate(name@));
                    }
                    return Err(SignalError::DuplicateField(name.clone()));
                }
                match v {
                    Value::Real(x) => {
                        if -PARAM_RAW_LIMIT <= x.raw && x.raw <= PARAM_RAW_LIMIT && x.raw != 0 {
                            st = ScanState { scale: Some(*x), ..st };
                        } else {
                            proof {
                                lemma_scan_error_stays(s, k + 1, DecodeFailure::WrongValue(name@));
                            }
                            return Err(SignalError::InvalidFieldValue(name.clone()));
                        }
                    },
                    _ => {
                        proof {
                            lemma_scan_error_stays(s, k + 1, DecodeFailure::WrongValue(name@));
                        }
                        return Err(SignalError::InvalidFieldValue(name.clone()));
                    },
                }
            } else if eq_str(name.as_str(), "offset") {
                if st.offset.is_some() {
                    proof {
                        lemma_scan_error_stays(s, k + 1, DecodeFailure::Duplicate(name@));
                    }
                    return Err(SignalError::DuplicateField(name.clone()));
                }
                match v {
                    Value::Real(x) => {
                        if -PARAM_RAW_LIMIT <= x.raw && x.raw <= PARAM_RAW_LIMIT {
                            st = ScanState { offset: Some(*x), ..st };
                        } else {
                            proof {
                                lemma_scan_error_stays(s, k + 1, DecodeFailure::WrongValue(name@));
                            }
                            return Err(SignalError::InvalidFieldValue(name.clone()));
                        }
                    },
                    _ => {
                        proof {
                            lemma_scan_error_stays(s, k + 1, DecodeFailure::WrongValue(name@));
                        }
                        return Err(SignalError::InvalidFieldValue(name.clone()));
                    },
                }
            } else {
                proof {
                    lemma_scan_error_stays(s, k + 1, DecodeFailure::Unknown(name@));
                }
                return Err(SignalError::UnknownField(name.clone()));
            }
        }
        proof {
            assert(s.take(n as int) =~= s);
        }
        if st.signal_type.is_none() {
            return Err(SignalError::MissingField("type".to_owned()));
        }
        if st.minimum.is_none() {
            return Err(SignalError::MissingField("minimum".to_owned()));
        }
        if st.maximum.is_none() {
            return Err(SignalError::MissingField("maximum".to_owned()));
        }
        if st.amplitude.is_none() {
            return Err(SignalError::MissingField("amplitude".to_owned()));
        }
        if st.period.is_none() {
            return Err(SignalError::MissingField("period".to_owned()));
        }
        if st.phase.is_none() {
            return Err(SignalError::MissingField("phase".to_owned()));
        }
        if st.num_bits.is_none() {
            return Err(SignalError::MissingField("num_bits".to_owned()));
        }
        if st.is_signed.is_none() {
            return Err(SignalError::MissingField("is_signed".to_owned()));
        }
        if st.scale.is_none() {
            return Err(SignalError::MissingField("scale".to_owned()));
        }
        if st.offset.is_none() {
            return Err(SignalError::MissingField("offset".to_owned()));
        }
        let t = st.signal_type.unwrap();
        let period = st.period.unwrap();
        if t != SignalType::Constant && period.raw == 0 {
            return Err(SignalError::InvalidFieldValue("period".to_owned()));
        }
        match SignalGenerator::new(
            t,
            st.minimum.unwrap(),
            st.maximum.unwrap(),
            st.amplitude.unwrap(),
            period,
            st.phase.unwrap(),
            st.num_bits.unwrap(),
            st.is_signed.unwrap(),
            st.scale.unwrap(),
            st.offset.unwrap(),
        ) {
            Ok(g) => Ok(g),
            Err(e) => Err(e),
        }
    }

    /// Decodes the positional (sequence) form of the canonical record:
    /// exactly ten values in emission order, checked and rejected with the
    /// same conditions as the named form.
    pub fn decode_seq(values: &Vec<Value>) -> (r: Result<SignalGenerator, SignalError>)
        ensures
            match spec_decode_seq(values@) {
                Ok(g) => r == Ok::<SignalGenerator, SignalError>(g),
                Err(f) => r matches Err(e) && matches_failure(e, f),
            },
            r matches Ok(g) ==> g.wf(),
    {
        if values.len() != 10 {
            return Err(SignalError::InvalidLength);
        }
        let t = match &values[0] {
            Value::Text(text) => match SignalType::try_from_string(text.as_str()) {
                Some(t) => t,
                None => {
                    return Err(SignalError::InvalidSignalType);
                },
            },
            _ => {
                return Err(SignalError::InvalidFieldValue("type".to_owned()));
            },
        };
        let minimum = match &values[1] {
            Value::Real(x) => {
                if -BOUND_RAW_LIMIT <= x.raw && x.raw <= BOUND_RAW_LIMIT {
                    *x
                } else {
                    return Err(SignalError::InvalidFieldValue("minimum".to_owned()));
                }
            },
            _ => {
                return Err(SignalError::InvalidFieldValue("minimum".to_owned()));
            },
        };
        let maximum = match &values[2] {
            Value::Real(x) => {
                if -BOUND_RAW_LIMIT <= x.raw && x.raw <= BOUND_RAW_LIMIT {
                    *x
                } else {
                    return Err(SignalError::InvalidFieldValue("maximum".to_owned()));
                }
            },
            _ => {
                return Err(SignalError::InvalidFieldValue("maximum".to_owned()));
            },
        };
        let amplitude = match &values[3] {
            Value::Real(x) => {
                if -PARAM_RAW_LIMIT <= x.raw && x.raw <= PARAM_RAW_LIMIT {
                    *x
                } else {
                    return Err(SignalError::InvalidFieldValue("amplitude".to_owned()));
                }
            },
            _ => {
                return Err(SignalError::InvalidFieldValue("amplitude".to_owned()));
            },
        };
        let period = match &values[4] {
            Value::Real(x) => {
                if -PARAM_RAW_LIMIT <= x.raw && x.raw <= PARAM_RAW_LIMIT {
                    *x
                } else {
                    return Err(SignalError::InvalidFieldValue("period".to_owned()));
                }
            },
            _ => {
                return Err(SignalError::InvalidFieldValue("period".to_owned()));
            },
        };
        let phase = match &values[5] {
            Value::Real(x) => {
                if -PARAM_RAW_LIMIT <= x.raw && x.raw <= PARAM_RAW_LIMIT {
                    *x
                } else {
                    return Err(SignalError::InvalidFieldValue("phase".to_owned()));
                }
            },
            _ => {
                return Err(SignalError::InvalidFieldValue("phase".to_owned()));
            },
        };
        let num_bits = match &values[6] {
            Value::Bits(b) => {
                if 1 <= *b && *b <= 63 {
                    *b
                } else {
                    return Err(SignalError::InvalidFieldValue("num_bits".to_owned()));
                }
            },
            _ => {
                return Err(SignalError::InvalidFieldValue("num_bits".to_owned()));
            },
        };
        let is_signed = match &values[7] {
            Value::Flag(b) => *b,
            _ => {
                return Err(SignalError::InvalidFieldValue("is_signed".to_owned()));
            },
        };
        let scale = match &values[8] {
            Value::Real(x) => {
                if -PARAM_RAW_LIMIT <= x.raw && x.raw <= PARAM_RAW_LIMIT && x.raw != 0 {
                    *x
                } else {
                    return Err(SignalError::InvalidFieldValue("scale".to_owned()));
                }
            },
            _ => {
                return Err(SignalError::InvalidFieldValue("scale".to_owned()));
            },
        };
        let offset = match &values[9] {
            Value::Real(x) => {
                if -PARAM_RAW_LIMIT <= x.raw && x.raw <= PARAM_RAW_LIMIT {
                    *x
                } else {
                    return Err(SignalError::InvalidFieldValue("offset".to_owned()));
                }
            },
            _ => {
                return Err(SignalError::InvalidFieldValue("offset".to_owned()));
            },
        };
        if t != SignalType::Constant && period.raw == 0 {
            return Err(SignalError::InvalidFieldValue("period".to_owned()));
        }
        match SignalGenerator::new(
            t,
            minimum,
            maximum,
            amplitude,
            period,
            phase,
            num_bits,
            is_signed,
            scale,
            offset,
        ) {
            Ok(g) => Ok(g),
            Err(e) => Err(e),
        }
    }

    /// The canonical record of this generator: the ten fields in emission
    /// order, each carrying this generator's value.
    pub fn encode(&self) -> (r: Vec<(String, Value)>)
        ensures
            is_encoding(r@, *self),
    {
        let mut r: Vec<(String, Value)> = Vec::new();
        r.push(("type".to_owned(), Value::Text(self.inner.get_type_name().to_owned())));
        r.push(("minimum".to_owned(), Value::Real(self.inner.minimum)));
        r.push(("maximum".to_owned(), Value::Real(self.inner.maximum)));
        r.push(("amplitude".to_owned(), Value::Real(self.inner.amplitude)));
        r.push(("period".to_owned(), Value::Real(self.inner.period)));
        r.push(("phase".to_owned(), Value::Real(self.inner.phase)));
        r.push(("num_bits".to_owned(), Value::Bits(self.inner.num_bits)));
        r.push(("is_signed".to_owned(), Value::Flag(self.inner.is_signed)));
        r.push(("scale".to_owned(), Value::Real(self.inner.scale)));
        r.push(("offset".to_owned(), Value::Real(self.inner.offset)));
        r
    }
}

} // verus!
