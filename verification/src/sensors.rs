//! What the sensor command reports: chips, their inputs and the sub-fields of
//! each input, decoded from JSON text.

use crate::reading::{lemma_truncated_in_range, Reading, DEGREES_CEILING, DEGREES_FLOOR};
use crate::text::{ends_with, starts_with, str_equal};
use serde_json::{Number, Value};
use std::collections::BTreeMap;
use vstd::prelude::*;

verus! {

/// A named number below a sensor input, such as `temp1_input`.
#[derive(Clone, Debug)]
pub struct SubField {
    pub name: String,
    pub value: Reading,
}

/// A named input of a chip. `fields` is `None` where the entry is no flat
/// object of numbers, as for the adapter description.
#[derive(Clone, Debug)]
pub struct SensorInput {
    pub name: String,
    pub fields: Option<Vec<SubField>>,
}

/// A sensor chip with its inputs.
#[derive(Clone, Debug)]
pub struct Chip {
    pub name: String,
    pub inputs: Vec<SensorInput>,
}

/// Mathematical value of a [`SubField`].
pub ghost struct SubFieldModel {
    pub name: Seq<char>,
    pub value: Reading,
}

/// Mathematical value of a [`SensorInput`].
pub ghost struct SensorInputModel {
    pub name: Seq<char>,
    pub fields: Option<Seq<SubFieldModel>>,
}

/// Mathematical value of a [`Chip`].
pub ghost struct ChipModel {
    pub name: Seq<char>,
    pub inputs: Seq<SensorInputModel>,
}

impl DeepView for SubField {
    type V = SubFieldModel;

    open spec fn deep_view(&self) -> SubFieldModel {
        SubFieldModel { name: self.name@, value: self.value }
    }
}

impl DeepView for SensorInput {
    type V = SensorInputModel;

    open spec fn deep_view(&self) -> SensorInputModel {
        SensorInputModel { name: self.name@, fields: self.fields.deep_view() }
    }
}

impl DeepView for Chip {
    type V = ChipModel;

    open spec fn deep_view(&self) -> ChipModel {
        ChipModel { name: self.name@, inputs: self.inputs.deep_view() }
    }
}

/// The error of `serde_json`, carried as it is: nothing is said of what it
/// holds.
#[verifier::external_type_specification]
#[verifier::external_body]
pub struct ExJsonError(serde_json::Error);

/// The chips that a JSON text describes, in the order of their names, or
/// `None` where the text is no JSON object of JSON objects.
pub uninterp spec fn sensors_document(text: Seq<char>) -> Option<Seq<ChipModel>>;

/// Decodes the report of the sensor command with `serde_json::from_str`, as a
/// map from chip name to a map from input name to a JSON value, and reads each
/// such value with `serde_json::from_value` as a map from sub-field name to
/// number; an input for which that fails gets no fields. The maps are ordered
/// by key. A number is kept as the bit pattern of its binary64 value, as
/// `Number::as_f64` and `to_bits` give it; an input with a number that has no
/// such value gets no fields either. The three calls are functions of their
/// arguments, and the JSON values pass from one to the next inside this
/// function, so the outcome is a function of the text: the contract claims
/// that it is `sensors_document` of it, and nothing more.
#[verifier::external_body]
fn decode_sensors(text: &str) -> (r: Result<Vec<Chip>, serde_json::Error>)
    ensures
        match r {
            Ok(chips) => sensors_document(text@) == Some(chips.deep_view()),
            Err(_) => sensors_document(text@) is None,
        },
{
    let document: BTreeMap<String, BTreeMap<String, Value>> = serde_json::from_str(text)?;
    Ok(document.into_iter().map(|(name, inputs)| Chip {
        name,
        inputs: inputs.into_iter().map(|(name, entry)| SensorInput {
            name,
            fields: serde_json::from_value::<BTreeMap<String, Number>>(entry).ok().and_then(|numbers| {
                numbers.into_iter().map(|(name, n)| {
                    Some(SubField { name, value: Reading { bits: n.as_f64()?.to_bits() } })
                }).collect()
            }),
        }).collect(),
    }).collect())
}

/// Decodes the report of the sensor command.
pub fn read_sensors(text: &str) -> (r: Option<Vec<Chip>>)
    ensures
        r.deep_view() == sensors_document(text@),
{
    match decode_sensors(text) {
        Ok(chips) => Some(chips),
        Err(_) => None,
    }
}

/// A sub-field is a temperature input when its name begins with `temp` and
/// ends with `input`.
pub open spec fn temperature_field(name: Seq<char>) -> bool {
    "temp"@.is_prefix_of(name) && "input"@.is_suffix_of(name)
}

/// An input passes the whitelist when there is none or when it is on it.
pub open spec fn admitted(name: Seq<char>, whitelist: Option<Seq<Seq<char>>>) -> bool {
    match whitelist {
        None => true,
        Some(names) => names.contains(name),
    }
}

/// The readings of the temperature inputs among `fields`, in their order.
pub open spec fn field_readings(fields: Seq<SubFieldModel>) -> Seq<Reading>
    decreases fields.len(),
{
    if fields.len() == 0 {
        Seq::empty()
    } else if temperature_field(fields.last().name) {
        field_readings(fields.drop_last()).push(fields.last().value)
    } else {
        field_readings(fields.drop_last())
    }
}

/// The temperature readings of one input: none where the whitelist leaves
/// the input out or where the input is no flat object of numbers.
pub open spec fn input_readings(input: SensorInputModel, whitelist: Option<Seq<Seq<char>>>) -> Seq<
    Reading,
> {
    if !admitted(input.name, whitelist) {
        Seq::empty()
    } else {
        match input.fields {
            None => Seq::empty(),
            Some(fields) => field_readings(fields),
        }
    }
}

/// The temperature readings of a list of inputs, in their order.
pub open spec fn inputs_readings(
    inputs: Seq<SensorInputModel>,
    whitelist: Option<Seq<Seq<char>>>,
) -> Seq<Reading>
    decreases inputs.len(),
{
    if inputs.len() == 0 {
        Seq::empty()
    } else {
        inputs_readings(inputs.drop_last(), whitelist) + input_readings(inputs.last(), whitelist)
    }
}

/// The temperature readings of a list of chips, in their order.
pub open spec fn chips_readings(chips: Seq<ChipModel>, whitelist: Option<Seq<Seq<char>>>) -> Seq<
    Reading,
>
    decreases chips.len(),
{
    if chips.len() == 0 {
        Seq::empty()
    } else {
        chips_readings(chips.drop_last(), whitelist) + inputs_readings(
            chips.last().inputs,
            whitelist,
        )
    }
}

/// The whole degrees of the readings in range, in their order.
pub open spec fn accepted(readings: Seq<Reading>) -> Seq<i64>
    decreases readings.len(),
{
    if readings.len() == 0 {
        Seq::empty()
    } else if readings.last().in_range() {
        accepted(readings.drop_last()).push(readings.last().truncated() as i64)
    } else {
        accepted(readings.drop_last())
    }
}

/// The readings out of range, in their order.
pub open spec fn rejected(readings: Seq<Reading>) -> Seq<Reading>
    decreases readings.len(),
{
    if readings.len() == 0 {
        Seq::empty()
    } else if readings.last().in_range() {
        rejected(readings.drop_last())
    } else {
        rejected(readings.drop_last()).push(readings.last())
    }
}

/// Whether `name` passes `whitelist`.
pub fn is_admitted(name: &str, whitelist: &Option<Vec<String>>) -> (r: bool)
    ensures
        r == admitted(name@, whitelist.deep_view()),
{
    match whitelist {
        None => true,
        Some(names) => {
            let mut i: usize = 0;
            while i < names.len()
                invariant
                    i <= names.len(),
                    whitelist.deep_view() == Some(names.deep_view()),
                    forall|j: int| 0 <= j < i ==> names.deep_view()[j] != name@,
                decreases names.len() - i,
            {
                if str_equal(names[i].as_str(), name) {
                    assert(names.deep_view()[i as int] == name@);
                    return true;
                }
                i += 1;
            }
            false
        },
    }
}

/// Whether a sub-field named `name` is a temperature input.
pub fn is_temperature_field(name: &str) -> (r: bool)
    ensures
        r == temperature_field(name@),
{
    starts_with(name, "temp") && ends_with(name, "input")
}

/// Appends the readings of the temperature inputs among `fields` to `found`.
fn gather_fields(fields: &Vec<SubField>, found: &mut Vec<Reading>)
    ensures
        final(found)@ == old(found)@ + field_readings(fields.deep_view()),
{
    let mut k: usize = 0;
    while k < fields.len()
        invariant
            k <= fields.len(),
            found@ == old(found)@ + field_readings(fields.deep_view().take(k as int)),
        decreases fields.len() - k,
    {
        proof {
            let seen = fields.deep_view().take(k + 1);
            assert(seen.drop_last() =~= fields.deep_view().take(k as int));
        }
        if is_temperature_field(fields[k].name.as_str()) {
            found.push(fields[k].value);
        }
        k += 1;
    }
    assert(fields.deep_view().take(k as int) =~= fields.deep_view());
}

/// Appends the temperature readings of `inputs` to `found`.
fn gather_inputs(inputs: &Vec<SensorInput>, whitelist: &Option<Vec<String>>, found: &mut Vec<Reading>)
    ensures
        final(found)@ == old(found)@ + inputs_readings(inputs.deep_view(), whitelist.deep_view()),
{
    let mut j: usize = 0;
    while j < inputs.len()
        invariant
            j <= inputs.len(),
            found@ == old(found)@ + inputs_readings(
                inputs.deep_view().take(j as int),
                whitelist.deep_view(),
            ),
        decreases inputs.len() - j,
    {
        proof {
            let seen = inputs.deep_view().take(j + 1);
            assert(seen.drop_last() =~= inputs.deep_view().take(j as int));
        }
        if is_admitted(inputs[j].name.as_str(), whitelist) {
            match &inputs[j].fields {
                Some(fields) => {
                    gather_fields(fields, found);
                },
                None => {},
            }
        }
        j += 1;
    }
    assert(inputs.deep_view().take(j as int) =~= inputs.deep_view());
}

/// The readings of all temperature inputs that `chips` report and that
/// `whitelist` lets through.
pub fn temperature_readings(chips: &Vec<Chip>, whitelist: &Option<Vec<String>>) -> (found: Vec<
    Reading,
>)
    ensures
        found@ == chips_readings(chips.deep_view(), whitelist.deep_view()),
{
    let mut found: Vec<Reading> = Vec::new();
    let mut i: usize = 0;
    while i < chips.len()
        invariant
            i <= chips.len(),
            found@ == chips_readings(chips.deep_view().take(i as int), whitelist.deep_view()),
        decreases chips.len() - i,
    {
        proof {
            let seen = chips.deep_view().take(i + 1);
            assert(seen.drop_last() =~= chips.deep_view().take(i as int));
        }
        gather_inputs(&chips[i].inputs, whitelist, &mut found);
        i += 1;
    }
    assert(chips.deep_view().take(i as int) =~= chips.deep_view());
    found
}

/// Splits `readings` into the whole degrees of those in range and the
/// readings out of range, each in the order of `readings`.
pub fn sift(readings: &Vec<Reading>) -> (r: (Vec<i64>, Vec<Reading>))
    ensures
        r.0@ == accepted(readings@),
        r.1@ == rejected(readings@),
{
    let mut kept: Vec<i64> = Vec::new();
    let mut dropped: Vec<Reading> = Vec::new();
    let mut i: usize = 0;
    while i < readings.len()
        invariant
            i <= readings.len(),
            kept@ == accepted(readings@.take(i as int)),
            dropped@ == rejected(readings@.take(i as int)),
        decreases readings.len() - i,
    {
        proof {
            let seen = readings@.take(i + 1);
            assert(seen.drop_last() =~= readings@.take(i as int));
        }
        match readings[i].degrees() {
            Some(d) => {
                kept.push(d);
            },
            None => {
                dropped.push(readings[i]);
            },
        }
        i += 1;
    }
    assert(readings@.take(i as int) =~= readings@);
    (kept, dropped)
}

/// A reading in range adds its whole degrees to what is accepted and nothing
/// to what is rejected; a reading out of range adds itself to what is
/// rejected and leaves what is accepted as it was.
pub proof fn lemma_sift_step(readings: Seq<Reading>, next: Reading)
    ensures
        next.in_range() ==> accepted(readings.push(next)) == accepted(readings).push(
            next.truncated() as i64,
        ) && rejected(readings.push(next)) == rejected(readings),
        !next.in_range() ==> accepted(readings.push(next)) == accepted(readings) && rejected(
            readings.push(next),
        ) == rejected(readings).push(next),
{
    assert(readings.push(next).drop_last() =~= readings);
}

/// Every reading is either accepted or rejected, never both.
pub proof fn lemma_sift_partitions(readings: Seq<Reading>)
    ensures
        accepted(readings).len() + rejected(readings).len() == readings.len(),
        forall|i: int|
            0 <= i < readings.len() && readings[i].in_range() ==> accepted(readings).contains(
                #[trigger] readings[i].truncated() as i64,
            ),
        forall|i: int|
            0 <= i < readings.len() && !readings[i].in_range() ==> rejected(readings).contains(
                #[trigger] readings[i],
            ),
        forall|k: int|
            0 <= k < accepted(readings).len() ==> DEGREES_FLOOR < #[trigger] accepted(readings)[k]
                < DEGREES_CEILING,
        forall|k: int| 0 <= k < rejected(readings).len() ==> !(#[trigger] rejected(readings)[k]).in_range(),
    decreases readings.len(),
{
    if readings.len() > 0 {
        let head = readings.drop_last();
        let last = readings.last();
        lemma_sift_partitions(head);
        if last.in_range() {
            lemma_truncated_in_range(last);
        }
        assert forall|i: int|
            0 <= i < readings.len() && readings[i].in_range() implies accepted(readings).contains(
            #[trigger] readings[i].truncated() as i64,
        ) by {
            if i < head.len() {
                assert(head[i] == readings[i]);
                let k = choose|k: int|
                    0 <= k < accepted(head).len() && accepted(head)[k] == readings[i].truncated() as i64;
                assert(accepted(readings)[k] == readings[i].truncated() as i64);
            } else {
                assert(accepted(readings)[accepted(readings).len() - 1] == readings[i].truncated() as i64);
            }
        }
        assert forall|i: int|
            0 <= i < readings.len() && !readings[i].in_range() implies rejected(readings).contains(
            #[trigger] readings[i],
        ) by {
            if i < head.len() {
                assert(head[i] == readings[i]);
                let k = choose|k: int| 0 <= k < rejected(head).len() && rejected(head)[k] == readings[i];
                assert(rejected(readings)[k] == readings[i]);
            } else {
                assert(rejected(readings)[rejected(readings).len() - 1] == readings[i]);
            }
        }
    }
}

} // verus!
