use vstd::prelude::*;
use vstd::string::StrSliceExecFns;

use crate::physics::{GravityDirection, WaveDirection};
use crate::text::{
    IndexError, decimal_digits, lemma_parse_decimal_digits, parse_index, same_text, spec_parse_index,
};

verus! {

/// Loads model files. Reading a file and turning its XML into model data is
/// the application's part; the identifiers and settings found in it are
/// interpreted here.
pub struct Loader;

/// A mass identifier of a model file: `m` and an index for a free mass, `n`
/// and an index for a fixed node.
#[derive(Clone, Copy, Debug, PartialEq, Eq, Structural)]
pub struct MassId {
    pub idx: usize,
    pub fixed: bool,
}

/// Why text is not a mass identifier.
#[derive(Clone, Copy, Debug, PartialEq, Eq, Structural)]
pub enum MassIdError {
    /// The text does not start with `m` or `n`.
    Prefix,
    /// What follows the prefix is not an index.
    Index(IndexError),
}

/// What reading the identifier `s`, of at least one character, gives.
pub open spec fn spec_parse_mass_id(s: Seq<char>) -> Result<MassId, MassIdError> {
    if s[0] == 'm' || s[0] == 'n' {
        match spec_parse_index(s.drop_first()) {
            Ok(idx) => Ok(MassId { idx, fixed: s[0] == 'n' }),
            Err(e) => Err(MassIdError::Index(e)),
        }
    } else {
        Err(MassIdError::Prefix)
    }
}

/// What reading the mass index of the identifier `s` gives, for text of any
/// length: the index that follows an `m` or an `n`.
pub open spec fn spec_mass_index(s: Seq<char>) -> Result<usize, MassIdError> {
    if s.len() == 0 {
        Err(MassIdError::Prefix)
    } else {
        match spec_parse_mass_id(s) {
            Ok(id) => Ok(id.idx),
            Err(e) => Err(e),
        }
    }
}

impl MassId {
    /// Reads a mass identifier whose first character is ASCII.
    pub fn parse(s: &str) -> (r: Result<MassId, MassIdError>)
        requires
            s@.len() > 0,
            (s@[0] as u32) < 128,
        ensures
            r == spec_parse_mass_id(s@),
            forall|k: nat|
                k <= usize::MAX && s@ == seq!['m'] + #[trigger] decimal_digits(k) ==> r == Ok::<
                    MassId,
                    MassIdError,
                >(MassId { idx: k as usize, fixed: false }),
            forall|k: nat|
                k <= usize::MAX && s@ == seq!['n'] + #[trigger] decimal_digits(k) ==> r == Ok::<
                    MassId,
                    MassIdError,
                >(MassId { idx: k as usize, fixed: true }),
    {
        proof {
            assert forall|k: nat| k <= usize::MAX && s@ == seq!['m'] + #[trigger] decimal_digits(k)
                implies spec_parse_mass_id(s@) == Ok::<MassId, MassIdError>(
                MassId { idx: k as usize, fixed: false },
            ) by {
                lemma_mass_id_of_index(k);
            }
            assert forall|k: nat| k <= usize::MAX && s@ == seq!['n'] + #[trigger] decimal_digits(k)
                implies spec_parse_mass_id(s@) == Ok::<MassId, MassIdError>(
                MassId { idx: k as usize, fixed: true },
            ) by {
                lemma_mass_id_of_index(k);
            }
        }
        let n = s.unicode_len();
        let prefix = s.get_char(0);
        let fixed = if prefix == 'm' {
            false
        } else if prefix == 'n' {
            true
        } else {
            return Err(MassIdError::Prefix);
        };
        let rest = s.substring_char(1, n);
        assert(rest@ =~= s@.drop_first());
        match parse_index(rest) {
            Ok(idx) => Ok(MassId { idx, fixed }),
            Err(e) => Err(MassIdError::Index(e)),
        }
    }
}

/// Reads the mass index of an identifier, as the ends of springs and
/// muscles name masses; whether it names a mass or a fixed node is not kept.
pub fn mass_index(s: &str) -> (r: Result<usize, MassIdError>)
    ensures
        r == spec_mass_index(s@),
        forall|k: nat|
            k <= usize::MAX && (s@ == seq!['m'] + #[trigger] decimal_digits(k) || s@ == seq!['n']
                + decimal_digits(k)) ==> r == Ok::<usize, MassIdError>(k as usize),
{
    proof {
        assert forall|k: nat|
            k <= usize::MAX && (s@ == seq!['m'] + #[trigger] decimal_digits(k) || s@ == seq!['n']
                + decimal_digits(k)) implies spec_mass_index(s@) == Ok::<usize, MassIdError>(
            k as usize,
        ) by {
            lemma_mass_id_of_index(k);
        }
    }
    let n = s.unicode_len();
    if n == 0 {
        return Err(MassIdError::Prefix);
    }
    let prefix = s.get_char(0);
    if prefix != 'm' && prefix != 'n' {
        return Err(MassIdError::Prefix);
    }
    let rest = s.substring_char(1, n);
    assert(rest@ =~= s@.drop_first());
    match parse_index(rest) {
        Ok(idx) => Ok(idx),
        Err(e) => Err(MassIdError::Index(e)),
    }
}

/// Reading only the index of an identifier agrees with reading the whole
/// identifier: both accept the same identifiers of one character or more, give
/// the same index, and fail for the same reason.
pub proof fn lemma_mass_index_agrees(s: Seq<char>)
    requires
        s.len() > 0,
    ensures
        spec_mass_index(s) == (match spec_parse_mass_id(s) {
            Ok(id) => Ok(id.idx),
            Err(e) => Err::<usize, MassIdError>(e),
        }),
        spec_parse_mass_id(s) is Ok ==> spec_parse_mass_id(s)->Ok_0.fixed == (s[0] == 'n'),
{
}

/// An identifier reads as the index that the text after its `m` or `n`
/// parses to, and fails exactly as that text fails to parse.
pub proof fn lemma_mass_id_reads_index(s: Seq<char>)
    requires
        s.len() > 0,
        s[0] == 'm' || s[0] == 'n',
    ensures
        spec_parse_index(s.drop_first()) is Ok ==> spec_parse_mass_id(s) == Ok::<
            MassId,
            MassIdError,
        >(MassId { idx: spec_parse_index(s.drop_first())->Ok_0, fixed: s[0] == 'n' }),
        spec_parse_index(s.drop_first()) is Err ==> spec_parse_mass_id(s) == Err::<
            MassId,
            MassIdError,
        >(MassIdError::Index(spec_parse_index(s.drop_first())->Err_0)),
        spec_parse_index(s.drop_first()) is Ok ==> spec_mass_index(s) == Ok::<usize, MassIdError>(
            spec_parse_index(s.drop_first())->Ok_0,
        ),
{
}

/// For every index `k` that fits in a `usize`, `m` followed by the decimal
/// digits of `k` names mass `k`, and `n` followed by them names fixed node `k`.
pub proof fn lemma_mass_id_of_index(k: nat)
    requires
        k <= usize::MAX,
    ensures
        spec_parse_mass_id(seq!['m'] + decimal_digits(k)) == Ok::<MassId, MassIdError>(
            MassId { idx: k as usize, fixed: false },
        ),
        spec_parse_mass_id(seq!['n'] + decimal_digits(k)) == Ok::<MassId, MassIdError>(
            MassId { idx: k as usize, fixed: true },
        ),
        spec_mass_index(seq!['m'] + decimal_digits(k)) == Ok::<usize, MassIdError>(k as usize),
        spec_mass_index(seq!['n'] + decimal_digits(k)) == Ok::<usize, MassIdError>(k as usize),
{
    lemma_parse_decimal_digits(k);
    assert((seq!['m'] + decimal_digits(k)).drop_first() =~= decimal_digits(k));
    assert((seq!['n'] + decimal_digits(k)).drop_first() =~= decimal_digits(k));
    assert((seq!['m'] + decimal_digits(k))[0] == 'm');
    assert((seq!['n'] + decimal_digits(k))[0] == 'n');
}

/// The settings of a model file, as text.
#[derive(Clone, Debug)]
pub struct SettingData {
    pub gravitydirection: String,
    pub wavedirection: String,
    pub autoreverse: String,
}

impl SettingData {
    /// `up` and `down` set the direction of gravity; anything else switches
    /// it off.
    pub fn gravity_direction(&self) -> (d: GravityDirection)
        ensures
            d == (if self.gravitydirection@ == "up"@ {
                GravityDirection::Up
            } else if self.gravitydirection@ == "down"@ {
                GravityDirection::Down
            } else {
                GravityDirection::Off
            }),
    {
        if same_text(self.gravitydirection.as_str(), "up") {
            GravityDirection::Up
        } else if same_text(self.gravitydirection.as_str(), "down") {
            GravityDirection::Down
        } else {
            GravityDirection::Off
        }
    }

    /// Model files count the wave's direction the other way round: `forward`
    /// there is `Reverse` here, anything else `Forward`.
    pub fn wave_direction(&self) -> (d: WaveDirection)
        ensures
            d == (if self.wavedirection@ == "forward"@ {
                WaveDirection::Reverse
            } else {
                WaveDirection::Forward
            }),
    {
        if same_text(self.wavedirection.as_str(), "forward") {
            WaveDirection::Reverse
        } else {
            WaveDirection::Forward
        }
    }

    /// Auto-reverse is on exactly when the setting reads `on`.
    pub fn autoreverse_on(&self) -> (on: bool)
        ensures
            on == (self.autoreverse@ == "on"@),
    {
        same_text(self.autoreverse.as_str(), "on")
    }
}

} // verus!
