//! Parameter descriptors: how the manifest describes one parameter, its
//! names, default and constraints.

use vstd::prelude::*;
use vstd::utf8::valid_utf8;

use crate::bytes::{le32, lemma_u32_at};
use crate::error::ProtocolError;
use crate::parameter::{
    lemma_tagged_round_trip, param_type_code, param_type_from_code, rd_tagged, tagged_wire,
    value_type, ParamFlags, ParamType, ParamValue, MAX_DISPLAY_NAME_LEN, MAX_ENUM_LABEL_LEN,
    MAX_ENUM_OPTIONS, MAX_GROUP_LEN, MAX_MACHINE_NAME_LEN, MAX_UNIT_LEN,
};
use crate::wire::{
    rd_finish, rd_u32, rd_u8, rd_utf8, str_bytes, wr_utf8, WireDecode, WireEncode, WireReader,
    WireWriter,
};

verus! {

/// One labelled value of an enumerated parameter.
#[derive(Clone, Debug, PartialEq)]
pub struct EnumOption {
    pub value: i32,
    pub label: String,
}

/// An `EnumOption` with its label as UTF-8 bytes.
pub struct EnumOptionView {
    pub value: i32,
    pub label: Seq<u8>,
}

impl View for EnumOption {
    type V = EnumOptionView;

    open spec fn view(&self) -> EnumOptionView {
        EnumOptionView { value: self.value, label: str_bytes(self.label) }
    }
}

/// What values a parameter accepts beyond its type.
#[derive(Clone, Debug, PartialEq)]
pub enum ParamConstraints {
    Unconstrained,
    Numeric { min: ParamValue, max: ParamValue, step: ParamValue },
    Enum { options: Vec<EnumOption> },
}

/// `ParamConstraints` with the options as a sequence of views.
pub enum ParamConstraintsView {
    Unconstrained,
    Numeric { min: ParamValue, max: ParamValue, step: ParamValue },
    Enum { options: Seq<EnumOptionView> },
}

/// The views of a list of options.
pub open spec fn options_view(v: Seq<EnumOption>) -> Seq<EnumOptionView> {
    v.map_values(|o: EnumOption| o@)
}

impl View for ParamConstraints {
    type V = ParamConstraintsView;

    open spec fn view(&self) -> ParamConstraintsView {
        match self {
            ParamConstraints::Unconstrained => ParamConstraintsView::Unconstrained,
            ParamConstraints::Numeric { min, max, step } => ParamConstraintsView::Numeric {
                min: *min,
                max: *max,
                step: *step,
            },
            ParamConstraints::Enum { options } => ParamConstraintsView::Enum {
                options: options_view(options@),
            },
        }
    }
}

/// The manifest's description of one parameter.
#[derive(Clone, Debug, PartialEq)]
pub struct ParamDescriptor {
    pub param_id: u32,
    pub param_type: ParamType,
    pub flags: ParamFlags,
    pub machine_name: String,
    pub display_name: String,
    pub group: String,
    pub unit: String,
    pub default_value: ParamValue,
    pub constraints: ParamConstraints,
}

/// A `ParamDescriptor` with its strings as UTF-8 bytes and its flags as
/// their byte.
pub struct ParamDescriptorView {
    pub param_id: u32,
    pub param_type: ParamType,
    pub flags: u8,
    pub machine_name: Seq<u8>,
    pub display_name: Seq<u8>,
    pub group: Seq<u8>,
    pub unit: Seq<u8>,
    pub default_value: ParamValue,
    pub constraints: ParamConstraintsView,
}

impl View for ParamDescriptor {
    type V = ParamDescriptorView;

    open spec fn view(&self) -> ParamDescriptorView {
        ParamDescriptorView {
            param_id: self.param_id,
            param_type: self.param_type,
            flags: self.flags.0,
            machine_name: str_bytes(self.machine_name),
            display_name: str_bytes(self.display_name),
            group: str_bytes(self.group),
            unit: str_bytes(self.unit),
            default_value: self.default_value,
            constraints: self.constraints@,
        }
    }
}

/// Every name fits its limit.
pub open spec fn descriptor_names_fit(v: ParamDescriptorView) -> bool {
    &&& v.machine_name.len() <= MAX_MACHINE_NAME_LEN
    &&& v.display_name.len() <= MAX_DISPLAY_NAME_LEN
    &&& v.group.len() <= MAX_GROUP_LEN
    &&& v.unit.len() <= MAX_UNIT_LEN
}

/// The options checked front to back: the first option whose label is too
/// long is `StringTooLong`, the first that repeats an earlier value is
/// `InvalidValue`.
pub open spec fn options_check(s: Seq<EnumOptionView>) -> Result<(), ProtocolError>
    decreases s.len(),
{
    if s.len() == 0 {
        Ok(())
    } else {
        match options_check(s.drop_last()) {
            Err(e) => Err(e),
            Ok(_) => if s.last().label.len() > MAX_ENUM_LABEL_LEN {
                Err(ProtocolError::StringTooLong)
            } else if exists|j: int| 0 <= j < s.len() - 1 && #[trigger] s[j].value == s.last().value {
                Err(ProtocolError::InvalidValue)
            } else {
                Ok(())
            },
        }
    }
}

/// Whether a type is one of the numeric kinds.
pub open spec fn numeric_type(t: ParamType) -> bool {
    t == ParamType::I32 || t == ParamType::U32 || t == ParamType::F32
}

/// Constraints fit a parameter type: numeric bounds of that numeric type,
/// or at most 32 options of an enumerated one (see `options_check`).
pub open spec fn constraints_check(t: ParamType, c: ParamConstraintsView) -> Result<
    (),
    ProtocolError,
> {
    match c {
        ParamConstraintsView::Unconstrained => Ok(()),
        ParamConstraintsView::Numeric { min, max, step } => if !numeric_type(t) || value_type(min)
            != t || value_type(max) != t || value_type(step) != t {
            Err(ProtocolError::InvalidValue)
        } else {
            Ok(())
        },
        ParamConstraintsView::Enum { options } => if t != ParamType::Enum || options.len()
            > MAX_ENUM_OPTIONS {
            Err(ProtocolError::InvalidValue)
        } else {
            options_check(options)
        },
    }
}

/// A descriptor is valid when its names fit (else `StringTooLong`), its
/// default has its type (else `InvalidValue`) and its constraints fit.
pub open spec fn descriptor_check(v: ParamDescriptorView) -> Result<(), ProtocolError> {
    if !descriptor_names_fit(v) {
        Err(ProtocolError::StringTooLong)
    } else if value_type(v.default_value) != v.param_type {
        Err(ProtocolError::InvalidValue)
    } else {
        constraints_check(v.param_type, v.constraints)
    }
}

/// Options on the wire: each value's four bytes, then its label.
pub open spec fn options_wire(s: Seq<EnumOptionView>) -> Seq<u8>
    decreases s.len(),
{
    if s.len() == 0 {
        Seq::empty()
    } else {
        options_wire(s.drop_last()) + le32(s.last().value as u32) + wr_utf8(s.last().label)
    }
}

/// Constraints on the wire: a kind byte, then the bounds or the options.
pub open spec fn constraints_wire(c: ParamConstraintsView) -> Seq<u8> {
    match c {
        ParamConstraintsView::Unconstrained => seq![0u8],
        ParamConstraintsView::Numeric { min, max, step } => seq![1u8] + tagged_wire(min)
            + tagged_wire(max) + tagged_wire(step),
        ParamConstraintsView::Enum { options } => seq![2u8, options.len() as u8] + options_wire(
            options,
        ),
    }
}

/// The bytes of a descriptor: id, type code, flags, the four names, the
/// tagged default, then the constraints.
pub open spec fn descriptor_wire(v: ParamDescriptorView) -> Seq<u8> {
    le32(v.param_id) + seq![param_type_code(v.param_type), v.flags] + wr_utf8(v.machine_name)
        + wr_utf8(v.display_name) + wr_utf8(v.group) + wr_utf8(v.unit) + tagged_wire(
        v.default_value,
    ) + constraints_wire(v.constraints)
}

/// A descriptor on the wire, or why it is not valid.
pub open spec fn param_descriptor_to_wire(v: ParamDescriptorView) -> Result<Seq<u8>, ProtocolError> {
    match descriptor_check(v) {
        Err(e) => Err(e),
        Ok(_) => Ok(descriptor_wire(v)),
    }
}

/// Reads `n` options at `o`, front to back.
pub open spec fn rd_options(b: Seq<u8>, o: int, n: nat) -> Result<
    (Seq<EnumOptionView>, int),
    ProtocolError,
>
    decreases n,
{
    if n == 0 {
        Ok((Seq::empty(), o))
    } else {
        match rd_options(b, o, (n - 1) as nat) {
            Err(e) => Err(e),
            Ok((opts, o1)) => match rd_u32(b, o1) {
                Err(e) => Err(e),
                Ok((value, o2)) => match rd_utf8(b, o2, MAX_ENUM_LABEL_LEN as int) {
                    Err(e) => Err(e),
                    Ok((label, o3)) => Ok(
                        (opts.push(EnumOptionView { value: value as i32, label }), o3),
                    ),
                },
            },
        }
    }
}

/// Reads constraints at `o`: kind 0, 1 or 2; another kind, or more than 32
/// options, is `InvalidValue`.
pub open spec fn rd_constraints(b: Seq<u8>, o: int) -> Result<
    (ParamConstraintsView, int),
    ProtocolError,
> {
    match rd_u8(b, o) {
        Err(e) => Err(e),
        Ok((kind, o1)) => if kind == 0 {
            Ok((ParamConstraintsView::Unconstrained, o1))
        } else if kind == 1 {
            match rd_tagged(b, o1) {
                Err(e) => Err(e),
                Ok((min, o2)) => match rd_tagged(b, o2) {
                    Err(e) => Err(e),
                    Ok((max, o3)) => match rd_tagged(b, o3) {
                        Err(e) => Err(e),
                        Ok((step, o4)) => Ok(
                            (ParamConstraintsView::Numeric { min, max, step }, o4),
                        ),
                    },
                },
            }
        } else if kind == 2 {
            match rd_u8(b, o1) {
                Err(e) => Err(e),
                Ok((count, o2)) => if count > MAX_ENUM_OPTIONS {
                    Err(ProtocolError::InvalidValue)
                } else {
                    match rd_options(b, o2, count as nat) {
                        Err(e) => Err(e),
                        Ok((options, o3)) => Ok((ParamConstraintsView::Enum { options }, o3)),
                    }
                },
            }
        } else {
            Err(ProtocolError::InvalidValue)
        },
    }
}

/// Reads the four names at `o`: machine name, display name, group, unit,
/// each within its limit.
pub open spec fn rd_names(b: Seq<u8>, o: int) -> Result<
    ((Seq<u8>, Seq<u8>, Seq<u8>, Seq<u8>), int),
    ProtocolError,
> {
    match rd_utf8(b, o, MAX_MACHINE_NAME_LEN as int) {
        Err(e) => Err(e),
        Ok((machine_name, o1)) => match rd_utf8(b, o1, MAX_DISPLAY_NAME_LEN as int) {
            Err(e) => Err(e),
            Ok((display_name, o2)) => match rd_utf8(b, o2, MAX_GROUP_LEN as int) {
                Err(e) => Err(e),
                Ok((group, o3)) => match rd_utf8(b, o3, MAX_UNIT_LEN as int) {
                    Err(e) => Err(e),
                    Ok((unit, o4)) => Ok(((machine_name, display_name, group, unit), o4)),
                },
            },
        },
    }
}

/// Reads every field of a descriptor, in wire order.
pub open spec fn rd_descriptor(b: Seq<u8>) -> Result<(ParamDescriptorView, int), ProtocolError> {
    match rd_u32(b, 0) {
        Err(e) => Err(e),
        Ok((param_id, o1)) => match rd_u8(b, o1) {
            Err(e) => Err(e),
            Ok((t, o2)) => match param_type_from_code(t) {
                Err(e) => Err(e),
                Ok(param_type) => match rd_u8(b, o2) {
                    Err(e) => Err(e),
                    Ok((flags, o3)) => match rd_names(b, o3) {
                        Err(e) => Err(e),
                        Ok((names, o4)) => match rd_tagged(b, o4) {
                            Err(e) => Err(e),
                            Ok((default_value, o5)) => match rd_constraints(b, o5) {
                                Err(e) => Err(e),
                                Ok((constraints, o6)) => Ok(
                                    (
                                        ParamDescriptorView {
                                            param_id,
                                            param_type,
                                            flags,
                                            machine_name: names.0,
                                            display_name: names.1,
                                            group: names.2,
                                            unit: names.3,
                                            default_value,
                                            constraints,
                                        },
                                        o6,
                                    ),
                                ),
                            },
                        },
                    },
                },
            },
        },
    }
}

/// A descriptor read from bytes: every field, nothing left over, and then
/// `descriptor_check`.
pub open spec fn param_descriptor_from_wire(b: Seq<u8>) -> Result<
    ParamDescriptorView,
    ProtocolError,
> {
    match rd_descriptor(b) {
        Err(e) => Err(e),
        Ok((v, o)) => match rd_finish(b, o) {
            Err(e) => Err(e),
            Ok(_) => match descriptor_check(v) {
                Err(e) => Err(e),
                Ok(_) => Ok(v),
            },
        },
    }
}

/// A valid option list has labels within their limit and no value twice.
pub proof fn lemma_options_check_ok(s: Seq<EnumOptionView>)
    requires
        options_check(s) == Ok::<(), ProtocolError>(()),
    ensures
        forall|i: int| 0 <= i < s.len() ==> #[trigger] s[i].label.len() <= MAX_ENUM_LABEL_LEN,
        forall|i: int, j: int| 0 <= i < j < s.len() ==> s[i].value != s[j].value,
    decreases s.len(),
{
    if s.len() > 0 {
        let t = s.drop_last();
        lemma_options_check_ok(t);
        assert forall|i: int| 0 <= i < s.len() implies #[trigger] s[i].label.len()
            <= MAX_ENUM_LABEL_LEN by {
            if i < s.len() - 1 {
                assert(s[i] == t[i]);
            }
        }
        assert forall|i: int, j: int| 0 <= i < j < s.len() implies s[i].value != s[j].value by {
            assert(s[i] == t[i]);
            if j < s.len() - 1 {
                assert(s[j] == t[j]);
            } else {
                assert(!(s[i].value == s.last().value));
            }
        }
    }
}

/// Once a prefix of the options fails, the whole list fails the same way.
pub proof fn lemma_options_check_prefix(s: Seq<EnumOptionView>, k: int)
    requires
        0 <= k <= s.len(),
        options_check(s.take(k)) is Err,
    ensures
        options_check(s) == options_check(s.take(k)),
    decreases s.len(),
{
    if k == s.len() {
        assert(s.take(k) =~= s);
    } else {
        let t = s.drop_last();
        assert(t.take(k) =~= s.take(k));
        lemma_options_check_prefix(t, k);
    }
}

/// Once reading the first `k` options fails, reading more fails the same
/// way.
pub proof fn lemma_rd_options_prefix(b: Seq<u8>, o: int, k: nat, n: nat)
    requires
        k <= n,
        rd_options(b, o, k) is Err,
    ensures
        rd_options(b, o, n) == rd_options(b, o, k),
    decreases n,
{
    if k < n {
        lemma_rd_options_prefix(b, o, k, (n - 1) as nat);
    }
}

/// Options written at `o` are read back from there.
pub proof fn lemma_rd_options_at(b: Seq<u8>, o: int, s: Seq<EnumOptionView>)
    requires
        0 <= o,
        o + options_wire(s).len() <= b.len(),
        b.subrange(o, o + options_wire(s).len()) == options_wire(s),
        forall|i: int|
            0 <= i < s.len() ==> #[trigger] s[i].label.len() <= MAX_ENUM_LABEL_LEN && valid_utf8(
                s[i].label,
            ),
    ensures
        rd_options(b, o, s.len()) == Ok::<(Seq<EnumOptionView>, int), ProtocolError>(
            (s, o + options_wire(s).len()),
        ),
    decreases s.len(),
{
    if s.len() > 0 {
        let t = s.drop_last();
        let last = s.last();
        let head = options_wire(t);
        let v = le32(last.value as u32);
        let l = wr_utf8(last.label);
        assert(options_wire(s) == head + (v + l)) by {
            assert(head + v + l =~= head + (v + l));
        }
        crate::bytes::lemma_split_at(b, o, head, v + l);
        assert forall|i: int| 0 <= i < t.len() implies #[trigger] t[i].label.len()
            <= MAX_ENUM_LABEL_LEN && valid_utf8(t[i].label) by {
            assert(t[i] == s[i]);
        }
        lemma_rd_options_at(b, o, t);
        let o1 = o + head.len();
        crate::bytes::lemma_split_at(b, o1, v, l);
        lemma_u32_at(b, o1, last.value as u32);
        assert(s[s.len() - 1] == last);
        crate::wire::lemma_rd_utf8_at(b, o1 + 4, last.label, MAX_ENUM_LABEL_LEN as int);
        let x = last.value;
        assert((x as u32) as i32 == x) by (bit_vector);
        assert(t.push(EnumOptionView { value: (last.value as u32) as i32, label: last.label }) =~= s);
        assert(rd_options(b, o, t.len()) == Ok::<(Seq<EnumOptionView>, int), ProtocolError>((t, o1)));
        assert(rd_u32(b, o1) == Ok::<(u32, int), ProtocolError>((last.value as u32, o1 + 4)));
        assert(rd_utf8(b, o1 + 4, MAX_ENUM_LABEL_LEN as int) == Ok::<(Seq<u8>, int), ProtocolError>((last.label, o1 + 5 + last.label.len())));
        assert(o1 + 5 + last.label.len() == o + options_wire(s).len());
    } else {
        assert(s =~= Seq::<EnumOptionView>::empty());
    }
}

/// Valid constraints written at `o` are read back from there.
pub proof fn lemma_rd_constraints_at(b: Seq<u8>, o: int, t: ParamType, c: ParamConstraintsView)
    requires
        0 <= o,
        o + constraints_wire(c).len() <= b.len(),
        b.subrange(o, o + constraints_wire(c).len()) == constraints_wire(c),
        constraints_check(t, c) == Ok::<(), ProtocolError>(()),
        c matches ParamConstraintsView::Enum { options } ==> forall|i: int|
            0 <= i < options.len() ==> #[trigger] valid_utf8(options[i].label),
    ensures
        rd_constraints(b, o) == Ok::<(ParamConstraintsView, int), ProtocolError>(
            (c, o + constraints_wire(c).len()),
        ),
{
    let w = constraints_wire(c);
    assert(b[o] == w[0]);
    match c {
        ParamConstraintsView::Unconstrained => {},
        ParamConstraintsView::Numeric { min, max, step } => {
            let x = tagged_wire(min);
            let y = tagged_wire(max);
            let z = tagged_wire(step);
            assert(w == seq![1u8] + (x + (y + z))) by {
                assert(w =~= seq![1u8] + (x + (y + z)));
            }
            crate::bytes::lemma_split_at(b, o, seq![1u8], x + (y + z));
            crate::bytes::lemma_split_at(b, o + 1, x, y + z);
            crate::bytes::lemma_split_at(b, o + 1 + x.len(), y, z);
            lemma_tagged_round_trip(b, o + 1, min);
            lemma_tagged_round_trip(b, o + 1 + x.len(), max);
            lemma_tagged_round_trip(b, o + 1 + x.len() + y.len(), step);
        },
        ParamConstraintsView::Enum { options } => {
            let ow = options_wire(options);
            assert(w == seq![2u8, options.len() as u8] + ow);
            crate::bytes::lemma_split_at(b, o, seq![2u8, options.len() as u8], ow);
            assert(b[o + 1] == b.subrange(o, o + 2)[1]);
            lemma_options_check_ok(options);
            lemma_rd_options_at(b, o + 2, options);
        },
    }
}

/// Checks the options front to back; see `options_check`.
fn check_options(options: &Vec<EnumOption>) -> (r: Result<(), ProtocolError>)
    ensures
        r == options_check(options_view(options@)),
{
    let ghost s = options_view(options@);
    let mut i: usize = 0;
    proof {
        assert(s.take(0) =~= Seq::<EnumOptionView>::empty());
    }
    while i < options.len()
        invariant
            i <= options@.len(),
            s == options_view(options@),
            s.len() == options@.len(),
            options_check(s.take(i as int)) == Ok::<(), ProtocolError>(()),
        decreases options@.len() - i,
    {
        let ghost next = s.take(i + 1);
        proof {
            assert(next.drop_last() =~= s.take(i as int));
            assert(next.last() == s[i as int]);
            assert(s[i as int] == options@[i as int]@);
        }
        if options[i].label.as_str().as_bytes().len() > MAX_ENUM_LABEL_LEN {
            proof {
                lemma_options_check_prefix(s, i + 1);
            }
            return Err(ProtocolError::StringTooLong);
        }
        let mut j: usize = 0;
        while j < i
            invariant
                j <= i < options@.len(),
                s == options_view(options@),
                next == s.take(i + 1),
                options_check(s.take(i as int)) == Ok::<(), ProtocolError>(()),
                next.drop_last() == s.take(i as int),
                next.last() == s[i as int],
                s[i as int].label.len() <= MAX_ENUM_LABEL_LEN,
                s.len() == options@.len(),
                forall|a: int| 0 <= a < j ==> s[a].value != s[i as int].value,
            decreases i - j,
        {
            proof {
                assert(s[j as int] == options@[j as int]@);
                assert(s[i as int] == options@[i as int]@);
            }
            if options[j].value == options[i].value {
                proof {
                    assert(next[j as int].value == next.last().value);
                    lemma_options_check_prefix(s, i + 1);
                }
                return Err(ProtocolError::InvalidValue);
            }
            j = j + 1;
        }
        proof {
            assert forall|a: int| 0 <= a < next.len() - 1 implies !(#[trigger] next[a].value
                == next.last().value) by {
                assert(next[a] == s[a]);
            }
        }
        i = i + 1;
    }
    proof {
        assert(s.take(i as int) =~= s);
    }
    Ok(())
}

impl ParamDescriptor {
    /// Checks the descriptor; see `descriptor_check`.
    fn validate(&self) -> (r: Result<(), ProtocolError>)
        ensures
            r == descriptor_check(self@),
    {
        if self.machine_name.as_str().as_bytes().len() > MAX_MACHINE_NAME_LEN
            || self.display_name.as_str().as_bytes().len() > MAX_DISPLAY_NAME_LEN
            || self.group.as_str().as_bytes().len() > MAX_GROUP_LEN
            || self.unit.as_str().as_bytes().len() > MAX_UNIT_LEN {
            return Err(ProtocolError::StringTooLong);
        }
        let t = self.param_type;
        if !self.default_value.param_type().same(t) {
            return Err(ProtocolError::InvalidValue);
        }
        match &self.constraints {
            ParamConstraints::Unconstrained => Ok(()),
            ParamConstraints::Numeric { min, max, step } => {
                let numeric = t.same(ParamType::I32) || t.same(ParamType::U32) || t.same(
                    ParamType::F32,
                );
                if !numeric || !min.param_type().same(t) || !max.param_type().same(t)
                    || !step.param_type().same(t) {
                    return Err(ProtocolError::InvalidValue);
                }
                Ok(())
            },
            ParamConstraints::Enum { options } => {
                if !t.same(ParamType::Enum) || options.len() > MAX_ENUM_OPTIONS {
                    return Err(ProtocolError::InvalidValue);
                }
                check_options(options)
            },
        }
    }
}

/// Writes constraints whose option labels fit their limit.
fn encode_constraints(c: &ParamConstraints, writer: &mut WireWriter)
    requires
        c@ matches ParamConstraintsView::Enum { options } ==> options.len() <= MAX_ENUM_OPTIONS
            && forall|i: int| 0 <= i < options.len() ==> #[trigger] options[i].label.len()
            <= MAX_ENUM_LABEL_LEN,
    ensures
        final(writer)@ == old(writer)@ + constraints_wire(c@),
{
    match c {
        ParamConstraints::Unconstrained => {
            writer.put_u8(0);
            proof {
                assert(writer@ =~= old(writer)@ + constraints_wire(c@));
            }
        },
        ParamConstraints::Numeric { min, max, step } => {
            writer.put_u8(1);
            min.encode_tagged(writer);
            max.encode_tagged(writer);
            step.encode_tagged(writer);
            proof {
                assert(writer@ =~= old(writer)@ + constraints_wire(c@));
            }
        },
        ParamConstraints::Enum { options } => {
            let ghost s = options_view(options@);
            writer.put_u8(2);
            writer.put_u8(options.len() as u8);
            let ghost start = writer@;
            let mut i: usize = 0;
            while i < options.len()
                invariant
                    i <= options@.len(),
                    s == options_view(options@),
                    s.len() == options@.len(),
                    forall|k: int| 0 <= k < s.len() ==> #[trigger] s[k].label.len()
                        <= MAX_ENUM_LABEL_LEN,
                    writer@ == start + options_wire(s.take(i as int)),
                decreases options@.len() - i,
            {
                proof {
                    assert(s.take(i + 1).drop_last() =~= s.take(i as int));
                    assert(s[i as int] == options@[i as int]@);
                }
                let option = &options[i];
                proof {
                    assert(s[i as int].label.len() <= MAX_ENUM_LABEL_LEN);
                }
                writer.put_u32(option.value as u32);
                let written = writer.put_utf8_u8_len(option.label.as_str(), MAX_ENUM_LABEL_LEN);
                proof {
                    assert(written is Ok);
                    assert(writer@ =~= start + options_wire(s.take(i + 1)));
                }
                i = i + 1;
            }
            proof {
                assert(s.take(i as int) =~= s);
                assert(writer@ =~= old(writer)@ + constraints_wire(c@));
            }
        },
    }
}

/// Reads `count` options, front to back; see `rd_options`.
fn decode_options(reader: &mut WireReader, count: usize) -> (r: Result<Vec<EnumOption>, ProtocolError>)
    ensures
        final(reader).data() == old(reader).data(),
        match r {
            Ok(options) => rd_options(old(reader).data(), old(reader).pos(), count as nat) == Ok::<
                (Seq<EnumOptionView>, int),
                ProtocolError,
            >((options_view(options@), final(reader).pos())),
            Err(e) => rd_options(old(reader).data(), old(reader).pos(), count as nat) == Err::<
                (Seq<EnumOptionView>, int),
                ProtocolError,
            >(e),
        },
{
    let ghost d = reader.data();
    let ghost o = reader.pos();
    let mut options: Vec<EnumOption> = Vec::new();
    let mut i: usize = 0;
    proof {
        assert(options_view(options@) =~= Seq::<EnumOptionView>::empty());
    }
    while i < count
        invariant
            i <= count,
            d == old(reader).data(),
            o == old(reader).pos(),
            reader.data() == d,
            rd_options(d, o, i as nat) == Ok::<(Seq<EnumOptionView>, int), ProtocolError>(
                (options_view(options@), reader.pos()),
            ),
        decreases count - i,
    {
        let value = match reader.read_u32() {
            Ok(v) => v,
            Err(e) => {
                proof {
                    lemma_rd_options_prefix(d, o, (i + 1) as nat, count as nat);
                }
                return Err(e);
            },
        };
        let label = match reader.read_utf8_u8_len(MAX_ENUM_LABEL_LEN) {
            Ok(l) => l,
            Err(e) => {
                proof {
                    lemma_rd_options_prefix(d, o, (i + 1) as nat, count as nat);
                }
                return Err(e);
            },
        };
        let option = EnumOption { value: value as i32, label };
        let ghost before = options@;
        options.push(option);
        proof {
            assert(options_view(options@) =~= options_view(before).push(option@));
        }
        i = i + 1;
    }
    Ok(options)
}

/// Reads constraints; see `rd_constraints`.
fn decode_constraints(reader: &mut WireReader) -> (r: Result<ParamConstraints, ProtocolError>)
    ensures
        final(reader).data() == old(reader).data(),
        match r {
            Ok(c) => rd_constraints(old(reader).data(), old(reader).pos()) == Ok::<
                (ParamConstraintsView, int),
                ProtocolError,
            >((c@, final(reader).pos())),
            Err(e) => rd_constraints(old(reader).data(), old(reader).pos()) == Err::<
                (ParamConstraintsView, int),
                ProtocolError,
            >(e),
        },
{
    let kind = reader.read_u8()?;
    if kind == 0 {
        Ok(ParamConstraints::Unconstrained)
    } else if kind == 1 {
        let min = ParamValue::decode_tagged(reader)?;
        let max = ParamValue::decode_tagged(reader)?;
        let step = ParamValue::decode_tagged(reader)?;
        Ok(ParamConstraints::Numeric { min, max, step })
    } else if kind == 2 {
        let count = reader.read_u8()? as usize;
        if count > MAX_ENUM_OPTIONS {
            return Err(ProtocolError::InvalidValue);
        }
        let options = decode_options(reader, count)?;
        Ok(ParamConstraints::Enum { options })
    } else {
        Err(ProtocolError::InvalidValue)
    }
}

impl ParamDescriptor {
    /// The encoded size of this descriptor, or why it is not valid.
    pub fn encoded_len(&self) -> (r: Result<usize, ProtocolError>)
        ensures
            match param_descriptor_to_wire(self@) {
                Ok(b) => r == Ok::<usize, ProtocolError>(b.len() as usize),
                Err(e) => r == Err::<usize, ProtocolError>(e),
            },
    {
        self.validate()?;
        let mut len: usize = 6 + 4 + self.machine_name.as_str().as_bytes().len()
            + self.display_name.as_str().as_bytes().len() + self.group.as_str().as_bytes().len()
            + self.unit.as_str().as_bytes().len();
        len = len + self.default_value.encoded_tagged_len() + 1;
        match &self.constraints {
            ParamConstraints::Unconstrained => {},
            ParamConstraints::Numeric { min, max, step } => {
                len = len + min.encoded_tagged_len() + max.encoded_tagged_len()
                    + step.encoded_tagged_len();
            },
            ParamConstraints::Enum { options } => {
                let ghost s = options_view(options@);
                proof {
                    lemma_options_check_ok(s);
                }
                len = len + 1;
                let ghost base = len;
                let mut i: usize = 0;
                while i < options.len()
                    invariant
                        i <= options@.len() <= MAX_ENUM_OPTIONS,
                        s == options_view(options@),
                        s.len() == options@.len(),
                        forall|k: int| 0 <= k < s.len() ==> #[trigger] s[k].label.len()
                            <= MAX_ENUM_LABEL_LEN,
                        base <= 1000,
                        len == base + options_wire(s.take(i as int)).len(),
                        options_wire(s.take(i as int)).len() <= 37 * i,
                    decreases options@.len() - i,
                {
                    proof {
                        assert(s.take(i + 1).drop_last() =~= s.take(i as int));
                        assert(s[i as int] == options@[i as int]@);
                        assert(s[i as int].label.len() <= MAX_ENUM_LABEL_LEN);
                    }
                    len = len + 5 + options[i].label.as_str().as_bytes().len();
                    i = i + 1;
                }
                proof {
                    assert(s.take(i as int) =~= s);
                }
            },
        }
        Ok(len)
    }
}

impl WireEncode for ParamDescriptor {
    open spec fn spec_wire_encode(v: ParamDescriptorView) -> Result<Seq<u8>, ProtocolError> {
        param_descriptor_to_wire(v)
    }

    fn encode(&self) -> (r: Result<Vec<u8>, ProtocolError>) {
        self.validate()?;
        proof {
            if let ParamConstraintsView::Enum { options } = self@.constraints {
                lemma_options_check_ok(options);
            }
        }
        let mut writer = WireWriter::new();
        writer.put_u32(self.param_id);
        writer.put_u8(self.param_type.as_u8());
        writer.put_u8(self.flags.bits());
        writer.put_utf8_u8_len(self.machine_name.as_str(), MAX_MACHINE_NAME_LEN)?;
        writer.put_utf8_u8_len(self.display_name.as_str(), MAX_DISPLAY_NAME_LEN)?;
        writer.put_utf8_u8_len(self.group.as_str(), MAX_GROUP_LEN)?;
        writer.put_utf8_u8_len(self.unit.as_str(), MAX_UNIT_LEN)?;
        self.default_value.encode_tagged(&mut writer);
        encode_constraints(&self.constraints, &mut writer);
        proof {
            assert(writer@ =~= param_descriptor_to_wire(self@)->Ok_0);
        }
        Ok(writer.into_inner())
    }
}

impl WireDecode for ParamDescriptor {
    open spec fn spec_wire_decode(b: Seq<u8>) -> Result<ParamDescriptorView, ProtocolError> {
        param_descriptor_from_wire(b)
    }

    fn decode(bytes: &[u8]) -> (r: Result<ParamDescriptor, ProtocolError>) {
        let mut reader = WireReader::new(bytes);
        let param_id = reader.read_u32()?;
        let param_type = ParamType::try_from_u8(reader.read_u8()?)?;
        let flags = ParamFlags::from_bits(reader.read_u8()?);
        let machine_name = reader.read_utf8_u8_len(MAX_MACHINE_NAME_LEN)?;
        let display_name = reader.read_utf8_u8_len(MAX_DISPLAY_NAME_LEN)?;
        let group = reader.read_utf8_u8_len(MAX_GROUP_LEN)?;
        let unit = reader.read_utf8_u8_len(MAX_UNIT_LEN)?;
        let default_value = ParamValue::decode_tagged(&mut reader)?;
        let constraints = decode_constraints(&mut reader)?;
        reader.finish()?;
        let value = ParamDescriptor {
            param_id,
            param_type,
            flags,
            machine_name,
            display_name,
            group,
            unit,
            default_value,
            constraints,
        };
        value.validate()?;
        Ok(value)
    }
}

/// Four names written one after the other at `o` are read back from there.
proof fn lemma_rd_names_at(b: Seq<u8>, o: int, m: Seq<u8>, dn: Seq<u8>, g: Seq<u8>, u: Seq<u8>)
    requires
        0 <= o,
        m.len() <= MAX_MACHINE_NAME_LEN,
        dn.len() <= MAX_DISPLAY_NAME_LEN,
        g.len() <= MAX_GROUP_LEN,
        u.len() <= MAX_UNIT_LEN,
        valid_utf8(m),
        valid_utf8(dn),
        valid_utf8(g),
        valid_utf8(u),
        o + 4 + m.len() + dn.len() + g.len() + u.len() <= b.len(),
        b.subrange(o, o + 1 + m.len()) == wr_utf8(m),
        b.subrange(o + 1 + m.len(), o + 2 + m.len() + dn.len()) == wr_utf8(dn),
        b.subrange(o + 2 + m.len() + dn.len(), o + 3 + m.len() + dn.len() + g.len()) == wr_utf8(g),
        b.subrange(o + 3 + m.len() + dn.len() + g.len(), o + 4 + m.len() + dn.len() + g.len() + u.len())
            == wr_utf8(u),
    ensures
        rd_names(b, o) == Ok::<((Seq<u8>, Seq<u8>, Seq<u8>, Seq<u8>), int), ProtocolError>(
            ((m, dn, g, u), o + 4 + m.len() + dn.len() + g.len() + u.len()),
        ),
{
    crate::wire::lemma_rd_utf8_at(b, o, m, MAX_MACHINE_NAME_LEN as int);
    crate::wire::lemma_rd_utf8_at(b, o + 1 + m.len(), dn, MAX_DISPLAY_NAME_LEN as int);
    crate::wire::lemma_rd_utf8_at(b, o + 2 + m.len() + dn.len(), g, MAX_GROUP_LEN as int);
    crate::wire::lemma_rd_utf8_at(b, o + 3 + m.len() + dn.len() + g.len(), u, MAX_UNIT_LEN as int);
}

/// A descriptor is read field by field.
proof fn lemma_rd_descriptor_steps(b: Seq<u8>, v: ParamDescriptorView, o7: int, o8: int, end: int)
    requires
        rd_u32(b, 0) == Ok::<(u32, int), ProtocolError>((v.param_id, 4)),
        rd_u8(b, 4) == Ok::<(u8, int), ProtocolError>((param_type_code(v.param_type), 5)),
        rd_u8(b, 5) == Ok::<(u8, int), ProtocolError>((v.flags, 6)),
        rd_names(b, 6) == Ok::<((Seq<u8>, Seq<u8>, Seq<u8>, Seq<u8>), int), ProtocolError>(
            ((v.machine_name, v.display_name, v.group, v.unit), o7),
        ),
        rd_tagged(b, o7) == Ok::<(ParamValue, int), ProtocolError>((v.default_value, o8)),
        rd_constraints(b, o8) == Ok::<(ParamConstraintsView, int), ProtocolError>(
            (v.constraints, end),
        ),
    ensures
        rd_descriptor(b) == Ok::<(ParamDescriptorView, int), ProtocolError>((v, end)),
{
    assert(param_type_from_code(param_type_code(v.param_type)) == Ok::<ParamType, ProtocolError>(
        v.param_type,
    ));
}

/// The bytes of a descriptor before its constraints.
pub open spec fn descriptor_head_wire(v: ParamDescriptorView) -> Seq<u8> {
    le32(v.param_id) + seq![param_type_code(v.param_type), v.flags] + wr_utf8(v.machine_name)
        + wr_utf8(v.display_name) + wr_utf8(v.group) + wr_utf8(v.unit) + tagged_wire(
        v.default_value,
    )
}

/// The fields before the constraints are read back from a descriptor's
/// bytes.
proof fn lemma_rd_descriptor_head(b: Seq<u8>, v: ParamDescriptorView)
    requires
        descriptor_names_fit(v),
        valid_utf8(v.machine_name),
        valid_utf8(v.display_name),
        valid_utf8(v.group),
        valid_utf8(v.unit),
        descriptor_head_wire(v).len() <= b.len(),
        b.subrange(0, descriptor_head_wire(v).len() as int) == descriptor_head_wire(v),
    ensures
        rd_u32(b, 0) == Ok::<(u32, int), ProtocolError>((v.param_id, 4)),
        rd_u8(b, 4) == Ok::<(u8, int), ProtocolError>((param_type_code(v.param_type), 5)),
        rd_u8(b, 5) == Ok::<(u8, int), ProtocolError>((v.flags, 6)),
        rd_names(b, 6) == Ok::<((Seq<u8>, Seq<u8>, Seq<u8>, Seq<u8>), int), ProtocolError>(
            (
                (v.machine_name, v.display_name, v.group, v.unit),
                descriptor_head_wire(v).len() - tagged_wire(v.default_value).len(),
            ),
        ),
        rd_tagged(b, descriptor_head_wire(v).len() - tagged_wire(v.default_value).len()) == Ok::<
            (ParamValue, int),
            ProtocolError,
        >((v.default_value, descriptor_head_wire(v).len() as int)),
{
    let x6 = descriptor_head_wire(v);
    let p = le32(v.param_id) + seq![param_type_code(v.param_type), v.flags];
    let n1 = wr_utf8(v.machine_name);
    let n2 = wr_utf8(v.display_name);
    let n3 = wr_utf8(v.group);
    let n4 = wr_utf8(v.unit);
    let d = tagged_wire(v.default_value);
    let x2 = p + n1;
    let x3 = x2 + n2;
    let x4 = x3 + n3;
    let x5 = x4 + n4;
    assert(x6 == x5 + d);
    crate::bytes::lemma_split_at(b, 0, x5, d);
    crate::bytes::lemma_split_at(b, 0, x4, n4);
    crate::bytes::lemma_split_at(b, 0, x3, n3);
    crate::bytes::lemma_split_at(b, 0, x2, n2);
    crate::bytes::lemma_split_at(b, 0, p, n1);
    crate::bytes::lemma_split_at(
        b,
        0,
        le32(v.param_id),
        seq![param_type_code(v.param_type), v.flags],
    );
    lemma_u32_at(b, 0, v.param_id);
    assert(b[4] == b.subrange(4, 6)[0]);
    assert(b[5] == b.subrange(4, 6)[1]);
    lemma_rd_names_at(b, 6, v.machine_name, v.display_name, v.group, v.unit);
    lemma_tagged_round_trip(b, x5.len() as int, v.default_value);
}

/// Every field of a valid descriptor is read back from its bytes.
#[verifier::spinoff_prover]
#[verifier::rlimit(30)]
proof fn lemma_rd_descriptor_at(v: ParamDescriptorView)
    requires
        descriptor_names_fit(v),
        constraints_check(v.param_type, v.constraints) == Ok::<(), ProtocolError>(()),
        valid_utf8(v.machine_name),
        valid_utf8(v.display_name),
        valid_utf8(v.group),
        valid_utf8(v.unit),
        v.constraints matches ParamConstraintsView::Enum { options } ==> forall|i: int|
            0 <= i < options.len() ==> #[trigger] valid_utf8(options[i].label),
    ensures
        rd_descriptor(descriptor_wire(v)) == Ok::<(ParamDescriptorView, int), ProtocolError>(
            (v, descriptor_wire(v).len() as int),
        ),
{
    let b = descriptor_wire(v);
    let h = descriptor_head_wire(v);
    let c = constraints_wire(v.constraints);
    assert(b == h + c);
    assert(b.subrange(0, b.len() as int) =~= b);
    crate::bytes::lemma_split_at(b, 0, h, c);
    lemma_rd_descriptor_head(b, v);
    lemma_rd_constraints_at(b, h.len() as int, v.param_type, v.constraints);
    lemma_rd_descriptor_steps(
        b,
        v,
        h.len() - tagged_wire(v.default_value).len(),
        h.len() as int,
        b.len() as int,
    );
}

/// Every string of a descriptor (names and option labels) is UTF-8.
pub open spec fn descriptor_utf8(v: ParamDescriptorView) -> bool {
    &&& valid_utf8(v.machine_name)
    &&& valid_utf8(v.display_name)
    &&& valid_utf8(v.group)
    &&& valid_utf8(v.unit)
    &&& v.constraints matches ParamConstraintsView::Enum { options } ==> forall|i: int|
        0 <= i < options.len() ==> #[trigger] valid_utf8(options[i].label)
}

/// Every valid descriptor whose strings are UTF-8 decodes back from its
/// encoding.
pub proof fn lemma_param_descriptor_round_trip(v: ParamDescriptorView)
    requires
        descriptor_check(v) == Ok::<(), ProtocolError>(()),
        descriptor_utf8(v),
    ensures
        param_descriptor_from_wire(param_descriptor_to_wire(v)->Ok_0) == Ok::<
            ParamDescriptorView,
            ProtocolError,
        >(v),
{
    lemma_rd_descriptor_at(v);
}

/// Options with labels within their limit take at most 37 bytes each.
proof fn lemma_options_wire_len(s: Seq<EnumOptionView>)
    requires
        forall|i: int| 0 <= i < s.len() ==> #[trigger] s[i].label.len() <= MAX_ENUM_LABEL_LEN,
    ensures
        options_wire(s).len() <= 37 * s.len(),
    decreases s.len(),
{
    if s.len() > 0 {
        let t = s.drop_last();
        assert forall|i: int| 0 <= i < t.len() implies #[trigger] t[i].label.len()
            <= MAX_ENUM_LABEL_LEN by {
            assert(t[i] == s[i]);
        }
        lemma_options_wire_len(t);
        assert(s.last().label.len() <= MAX_ENUM_LABEL_LEN);
    }
}

/// A valid descriptor encodes to at most 1400 bytes.
pub proof fn lemma_descriptor_wire_len(v: ParamDescriptorView)
    requires
        descriptor_check(v) == Ok::<(), ProtocolError>(()),
    ensures
        descriptor_wire(v).len() <= 1400,
{
    if let ParamConstraintsView::Enum { options } = v.constraints {
        lemma_options_check_ok(options);
        lemma_options_wire_len(options);
    }
}

impl ParamDescriptor {
    /// A second descriptor equal to this one.
    pub(crate) fn duplicate(&self) -> (d: ParamDescriptor)
        ensures
            d@ == self@,
    {
        let constraints = match &self.constraints {
            ParamConstraints::Unconstrained => ParamConstraints::Unconstrained,
            ParamConstraints::Numeric { min, max, step } => ParamConstraints::Numeric {
                min: *min,
                max: *max,
                step: *step,
            },
            ParamConstraints::Enum { options } => {
                let mut copied: Vec<EnumOption> = Vec::new();
                let mut i: usize = 0;
                while i < options.len()
                    invariant
                        i <= options@.len(),
                        options_view(copied@) == options_view(options@).take(i as int),
                    decreases options@.len() - i,
                {
                    let option = EnumOption { value: options[i].value, label: options[i].label.clone() };
                    let ghost before = copied@;
                    copied.push(option);
                    proof {
                        assert(options_view(copied@) =~= options_view(before).push(option@));
                        assert(options_view(options@).take(i + 1) =~= options_view(options@).take(
                            i as int,
                        ).push(options@[i as int]@));
                    }
                    i = i + 1;
                }
                proof {
                    assert(options_view(options@).take(i as int) =~= options_view(options@));
                }
                ParamConstraints::Enum { options: copied }
            },
        };
        ParamDescriptor {
            param_id: self.param_id,
            param_type: self.param_type,
            flags: self.flags,
            machine_name: self.machine_name.clone(),
            display_name: self.display_name.clone(),
            group: self.group.clone(),
            unit: self.unit.clone(),
            default_value: self.default_value,
            constraints,
        }
    }
}

} // verus!
