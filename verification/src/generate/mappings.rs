use crate::registers::rule::{Mapping, NumberWidth};
use crate::text::{integer_of_text, parse_integer};
use vstd::prelude::*;

verus! {

/// The mappings from codes to labels that values are drawn from.
pub struct Mappings {
    /// The codes of the mapping of diagnoses.
    pub scd: Vec<String>,
    /// The codes of civil status, each with its label.
    pub civst: Vec<(String, String)>,
    pub socio13: Vec<i32>,
    pub fm_mark: Vec<i32>,
    pub hustype: Vec<i32>,
    pub plads: Vec<i32>,
    pub reg: Vec<i32>,
    pub statsb: Vec<i32>,
    pub jobkat: Vec<i32>,
    pub tilknyt: Vec<i32>,
    pub pre_socio: Vec<i32>,
    pub beskst13: Vec<i32>,
}

impl Mappings {
    /// The codes of a mapping.
    pub open spec fn codes(self, mapping: Mapping) -> Seq<i32> {
        match mapping {
            Mapping::Socio13 => self.socio13@,
            Mapping::FmMark => self.fm_mark@,
            Mapping::Hustype => self.hustype@,
            Mapping::Plads => self.plads@,
            Mapping::Reg => self.reg@,
            Mapping::Statsb => self.statsb@,
            Mapping::Jobkat => self.jobkat@,
            Mapping::Tilknyt => self.tilknyt@,
            Mapping::PreSocio => self.pre_socio@,
            Mapping::Beskst13 => self.beskst13@,
        }
    }

    /// The codes of a mapping.
    pub fn keys(&self, mapping: Mapping) -> (keys: &Vec<i32>)
        ensures
            keys@ == self.codes(mapping),
    {
        match mapping {
            Mapping::Socio13 => &self.socio13,
            Mapping::FmMark => &self.fm_mark,
            Mapping::Hustype => &self.hustype,
            Mapping::Plads => &self.plads,
            Mapping::Reg => &self.reg,
            Mapping::Statsb => &self.statsb,
            Mapping::Jobkat => &self.jobkat,
            Mapping::Tilknyt => &self.tilknyt,
            Mapping::PreSocio => &self.pre_socio,
            Mapping::Beskst13 => &self.beskst13,
        }
    }
}

/// The whole numbers between `min` and `max` that the texts of `keys`
/// spell, in their order. A text that spells no such number is left out.
pub open spec fn codes_of(keys: Seq<String>, min: int, max: int) -> Seq<int>
    decreases keys.len(),
{
    if keys.len() == 0 {
        Seq::empty()
    } else {
        let front = codes_of(keys.drop_last(), min, max);
        match integer_of_text(keys.last()@, min, max) {
            Some(code) => front.push(code),
            None => front,
        }
    }
}

/// The codes of a mapping whose codes are whole numbers of the given size,
/// read from the keys of the mapping as they are written in its file. A key
/// that is no number of that size is left out.
pub fn integer_codes(keys: &Vec<String>, size: NumberWidth) -> (codes: Vec<i32>)
    ensures
        codes@.map_values(|code: i32| code as int) == codes_of(keys@, size.min(), size.max()),
{
    let (min, max): (i64, i64) = match size {
        NumberWidth::I8 => (-128, 127),
        NumberWidth::I16 => (-32_768, 32_767),
        NumberWidth::I32 => (-2_147_483_648, 2_147_483_647),
    };
    let mut codes: Vec<i32> = Vec::new();
    let mut at: usize = 0;
    assert(keys@.take(0) =~= Seq::<String>::empty());
    while at < keys.len()
        invariant
            at <= keys@.len(),
            min == size.min(),
            max == size.max(),
            codes@.map_values(|code: i32| code as int) =~= codes_of(
                keys@.take(at as int),
                min as int,
                max as int,
            ),
        decreases keys@.len() - at,
    {
        let ghost seen = keys@.take(at + 1);
        assert(seen.drop_last() =~= keys@.take(at as int));
        assert(seen.last() == keys@[at as int]);
        match parse_integer(keys[at].as_str(), min, max) {
            Some(code) => {
                codes.push(code as i32);
            },
            None => {},
        }
        at = at + 1;
    }
    assert(keys@.take(keys@.len() as int) =~= keys@);
    codes
}

} // verus!
