//! The catalog of device models: silicon IDs, names and per-model constants.

use vstd::prelude::*;
use crate::bytes::{le_bytes_u16, u16_to_le};
use crate::status::{programmer_status, FlashFailure, RendmpBankStatus};
use crate::text::{ascii_uppercase, is_ascii_alphanumeric, to_uppercase, uppercase};

verus! {

/// The second generation of controllers.
#[derive(Copy, Clone, Debug, PartialEq, Eq, Structural)]
pub enum RendmpGenTwo {
    ISL68220,
    ISL68221,
    ISL68222,
    ISL68223,
    ISL68224,
    ISL68225,
    ISL68226,
    ISL68227,
    ISL68229,
    ISL68233,
    ISL68236,
    ISL68239,
    ISL69222,
    ISL69223,
    ISL69224,
    ISL69225,
    ISL69227,
    ISL69228,
    ISL69234,
    ISL69236,
    ISL69237,
    ISL69238,
    ISL69239,
    ISL69242,
    ISL69243,
    ISL69247,
    ISL69248,
    ISL69249,
    ISL69254,
    ISL69255,
    ISL69256,
    ISL69259,
    ISL69260,
    ISL69267,
    ISL69268,
    ISL69269,
    RAA228000,
    RAA228004,
    RAA228006,
    RAA229001,
    RAA229004,
    RAA229022,
    RAA229126,
}

impl RendmpGenTwo {
    /// The 8-bit silicon ID of this model.
    pub open spec fn spec_id(self) -> u8 {
        match self {
            RendmpGenTwo::ISL68220 => 0x63,
            RendmpGenTwo::ISL68221 => 0x62,
            RendmpGenTwo::ISL68222 => 0x61,
            RendmpGenTwo::ISL68223 => 0x53,
            RendmpGenTwo::ISL68224 => 0x52,
            RendmpGenTwo::ISL68225 => 0x51,
            RendmpGenTwo::ISL68226 => 0x50,
            RendmpGenTwo::ISL68227 => 0x4f,
            RendmpGenTwo::ISL68229 => 0x4e,
            RendmpGenTwo::ISL68233 => 0x6b,
            RendmpGenTwo::ISL68236 => 0x4d,
            RendmpGenTwo::ISL68239 => 0x4b,
            RendmpGenTwo::ISL69222 => 0x3e,
            RendmpGenTwo::ISL69223 => 0x3d,
            RendmpGenTwo::ISL69224 => 0x3c,
            RendmpGenTwo::ISL69225 => 0x3b,
            RendmpGenTwo::ISL69227 => 0x3a,
            RendmpGenTwo::ISL69228 => 0x39,
            RendmpGenTwo::ISL69234 => 0x43,
            RendmpGenTwo::ISL69236 => 0x42,
            RendmpGenTwo::ISL69237 => 0x66,
            RendmpGenTwo::ISL69238 => 0x40,
            RendmpGenTwo::ISL69239 => 0x41,
            RendmpGenTwo::ISL69242 => 0x58,
            RendmpGenTwo::ISL69243 => 0x59,
            RendmpGenTwo::ISL69247 => 0x48,
            RendmpGenTwo::ISL69248 => 0x47,
            RendmpGenTwo::ISL69249 => 0x6d,
            RendmpGenTwo::ISL69254 => 0x67,
            RendmpGenTwo::ISL69255 => 0x38,
            RendmpGenTwo::ISL69256 => 0x37,
            RendmpGenTwo::ISL69259 => 0x46,
            RendmpGenTwo::ISL69260 => 0x6e,
            RendmpGenTwo::ISL69267 => 0x57,
            RendmpGenTwo::ISL69268 => 0x3f,
            RendmpGenTwo::ISL69269 => 0x55,
            RendmpGenTwo::RAA228000 => 0x64,
            RendmpGenTwo::RAA228004 => 0x65,
            RendmpGenTwo::RAA228006 => 0x6c,
            RendmpGenTwo::RAA229001 => 0x69,
            RendmpGenTwo::RAA229004 => 0x6a,
            RendmpGenTwo::RAA229022 => 0x6f,
            RendmpGenTwo::RAA229126 => 0x7e,
        }
    }

    /// The 8-bit silicon ID of this model.
    #[verifier::when_used_as_spec(spec_id)]
    pub fn id(self) -> (r: u8)
        ensures
            r == self.spec_id(),
    {
        match self {
            RendmpGenTwo::ISL68220 => 0x63,
            RendmpGenTwo::ISL68221 => 0x62,
            RendmpGenTwo::ISL68222 => 0x61,
            RendmpGenTwo::ISL68223 => 0x53,
            RendmpGenTwo::ISL68224 => 0x52,
            RendmpGenTwo::ISL68225 => 0x51,
            RendmpGenTwo::ISL68226 => 0x50,
            RendmpGenTwo::ISL68227 => 0x4f,
            RendmpGenTwo::ISL68229 => 0x4e,
            RendmpGenTwo::ISL68233 => 0x6b,
            RendmpGenTwo::ISL68236 => 0x4d,
            RendmpGenTwo::ISL68239 => 0x4b,
            RendmpGenTwo::ISL69222 => 0x3e,
            RendmpGenTwo::ISL69223 => 0x3d,
            RendmpGenTwo::ISL69224 => 0x3c,
            RendmpGenTwo::ISL69225 => 0x3b,
            RendmpGenTwo::ISL69227 => 0x3a,
            RendmpGenTwo::ISL69228 => 0x39,
            RendmpGenTwo::ISL69234 => 0x43,
            RendmpGenTwo::ISL69236 => 0x42,
            RendmpGenTwo::ISL69237 => 0x66,
            RendmpGenTwo::ISL69238 => 0x40,
            RendmpGenTwo::ISL69239 => 0x41,
            RendmpGenTwo::ISL69242 => 0x58,
            RendmpGenTwo::ISL69243 => 0x59,
            RendmpGenTwo::ISL69247 => 0x48,
            RendmpGenTwo::ISL69248 => 0x47,
            RendmpGenTwo::ISL69249 => 0x6d,
            RendmpGenTwo::ISL69254 => 0x67,
            RendmpGenTwo::ISL69255 => 0x38,
            RendmpGenTwo::ISL69256 => 0x37,
            RendmpGenTwo::ISL69259 => 0x46,
            RendmpGenTwo::ISL69260 => 0x6e,
            RendmpGenTwo::ISL69267 => 0x57,
            RendmpGenTwo::ISL69268 => 0x3f,
            RendmpGenTwo::ISL69269 => 0x55,
            RendmpGenTwo::RAA228000 => 0x64,
            RendmpGenTwo::RAA228004 => 0x65,
            RendmpGenTwo::RAA228006 => 0x6c,
            RendmpGenTwo::RAA229001 => 0x69,
            RendmpGenTwo::RAA229004 => 0x6a,
            RendmpGenTwo::RAA229022 => 0x6f,
            RendmpGenTwo::RAA229126 => 0x7e,
        }
    }

    /// The model with the given silicon ID; `None` where this generation has none.
    pub fn from_u8(id: u8) -> (r: Option<Self>)
        ensures
            match r {
                Some(m) => m.spec_id() == id,
                None => forall|m: Self| m.spec_id() != id,
            },
    {
        match id {
            0x63 => Some(RendmpGenTwo::ISL68220),
            0x62 => Some(RendmpGenTwo::ISL68221),
            0x61 => Some(RendmpGenTwo::ISL68222),
            0x53 => Some(RendmpGenTwo::ISL68223),
            0x52 => Some(RendmpGenTwo::ISL68224),
            0x51 => Some(RendmpGenTwo::ISL68225),
            0x50 => Some(RendmpGenTwo::ISL68226),
            0x4f => Some(RendmpGenTwo::ISL68227),
            0x4e => Some(RendmpGenTwo::ISL68229),
            0x6b => Some(RendmpGenTwo::ISL68233),
            0x4d => Some(RendmpGenTwo::ISL68236),
            0x4b => Some(RendmpGenTwo::ISL68239),
            0x3e => Some(RendmpGenTwo::ISL69222),
            0x3d => Some(RendmpGenTwo::ISL69223),
            0x3c => Some(RendmpGenTwo::ISL69224),
            0x3b => Some(RendmpGenTwo::ISL69225),
            0x3a => Some(RendmpGenTwo::ISL69227),
            0x39 => Some(RendmpGenTwo::ISL69228),
            0x43 => Some(RendmpGenTwo::ISL69234),
            0x42 => Some(RendmpGenTwo::ISL69236),
            0x66 => Some(RendmpGenTwo::ISL69237),
            0x40 => Some(RendmpGenTwo::ISL69238),
            0x41 => Some(RendmpGenTwo::ISL69239),
            0x58 => Some(RendmpGenTwo::ISL69242),
            0x59 => Some(RendmpGenTwo::ISL69243),
            0x48 => Some(RendmpGenTwo::ISL69247),
            0x47 => Some(RendmpGenTwo::ISL69248),
            0x6d => Some(RendmpGenTwo::ISL69249),
            0x67 => Some(RendmpGenTwo::ISL69254),
            0x38 => Some(RendmpGenTwo::ISL69255),
            0x37 => Some(RendmpGenTwo::ISL69256),
            0x46 => Some(RendmpGenTwo::ISL69259),
            0x6e => Some(RendmpGenTwo::ISL69260),
            0x57 => Some(RendmpGenTwo::ISL69267),
            0x3f => Some(RendmpGenTwo::ISL69268),
            0x55 => Some(RendmpGenTwo::ISL69269),
            0x64 => Some(RendmpGenTwo::RAA228000),
            0x65 => Some(RendmpGenTwo::RAA228004),
            0x6c => Some(RendmpGenTwo::RAA228006),
            0x69 => Some(RendmpGenTwo::RAA229001),
            0x6a => Some(RendmpGenTwo::RAA229004),
            0x6f => Some(RendmpGenTwo::RAA229022),
            0x7e => Some(RendmpGenTwo::RAA229126),
            _ => None,
        }
    }

    /// The name of this model, as it is printed.
    pub open spec fn spec_name(self) -> Seq<char> {
        match self {
            RendmpGenTwo::ISL68220 => "ISL68220"@,
            RendmpGenTwo::ISL68221 => "ISL68221"@,
            RendmpGenTwo::ISL68222 => "ISL68222"@,
            RendmpGenTwo::ISL68223 => "ISL68223"@,
            RendmpGenTwo::ISL68224 => "ISL68224"@,
            RendmpGenTwo::ISL68225 => "ISL68225"@,
            RendmpGenTwo::ISL68226 => "ISL68226"@,
            RendmpGenTwo::ISL68227 => "ISL68227"@,
            RendmpGenTwo::ISL68229 => "ISL68229"@,
            RendmpGenTwo::ISL68233 => "ISL68233"@,
            RendmpGenTwo::ISL68236 => "ISL68236"@,
            RendmpGenTwo::ISL68239 => "ISL68239"@,
            RendmpGenTwo::ISL69222 => "ISL69222"@,
            RendmpGenTwo::ISL69223 => "ISL69223"@,
            RendmpGenTwo::ISL69224 => "ISL69224"@,
            RendmpGenTwo::ISL69225 => "ISL69225"@,
            RendmpGenTwo::ISL69227 => "ISL69227"@,
            RendmpGenTwo::ISL69228 => "ISL69228"@,
            RendmpGenTwo::ISL69234 => "ISL69234"@,
            RendmpGenTwo::ISL69236 => "ISL69236"@,
            RendmpGenTwo::ISL69237 => "ISL69237"@,
            RendmpGenTwo::ISL69238 => "ISL69238"@,
            RendmpGenTwo::ISL69239 => "ISL69239"@,
            RendmpGenTwo::ISL69242 => "ISL69242"@,
            RendmpGenTwo::ISL69243 => "ISL69243"@,
            RendmpGenTwo::ISL69247 => "ISL69247"@,
            RendmpGenTwo::ISL69248 => "ISL69248"@,
            RendmpGenTwo::ISL69249 => "ISL69249"@,
            RendmpGenTwo::ISL69254 => "ISL69254"@,
            RendmpGenTwo::ISL69255 => "ISL69255"@,
            RendmpGenTwo::ISL69256 => "ISL69256"@,
            RendmpGenTwo::ISL69259 => "ISL69259"@,
            RendmpGenTwo::ISL69260 => "ISL69260"@,
            RendmpGenTwo::ISL69267 => "ISL69267"@,
            RendmpGenTwo::ISL69268 => "ISL69268"@,
            RendmpGenTwo::ISL69269 => "ISL69269"@,
            RendmpGenTwo::RAA228000 => "RAA228000"@,
            RendmpGenTwo::RAA228004 => "RAA228004"@,
            RendmpGenTwo::RAA228006 => "RAA228006"@,
            RendmpGenTwo::RAA229001 => "RAA229001"@,
            RendmpGenTwo::RAA229004 => "RAA229004"@,
            RendmpGenTwo::RAA229022 => "RAA229022"@,
            RendmpGenTwo::RAA229126 => "RAA229126"@,
        }
    }

    /// The name of this model, as it is printed.
    pub fn name(self) -> (r: &'static str)
        ensures
            r@ == self.spec_name(),
    {
        match self {
            RendmpGenTwo::ISL68220 => "ISL68220",
            RendmpGenTwo::ISL68221 => "ISL68221",
            RendmpGenTwo::ISL68222 => "ISL68222",
            RendmpGenTwo::ISL68223 => "ISL68223",
            RendmpGenTwo::ISL68224 => "ISL68224",
            RendmpGenTwo::ISL68225 => "ISL68225",
            RendmpGenTwo::ISL68226 => "ISL68226",
            RendmpGenTwo::ISL68227 => "ISL68227",
            RendmpGenTwo::ISL68229 => "ISL68229",
            RendmpGenTwo::ISL68233 => "ISL68233",
            RendmpGenTwo::ISL68236 => "ISL68236",
            RendmpGenTwo::ISL68239 => "ISL68239",
            RendmpGenTwo::ISL69222 => "ISL69222",
            RendmpGenTwo::ISL69223 => "ISL69223",
            RendmpGenTwo::ISL69224 => "ISL69224",
            RendmpGenTwo::ISL69225 => "ISL69225",
            RendmpGenTwo::ISL69227 => "ISL69227",
            RendmpGenTwo::ISL69228 => "ISL69228",
            RendmpGenTwo::ISL69234 => "ISL69234",
            RendmpGenTwo::ISL69236 => "ISL69236",
            RendmpGenTwo::ISL69237 => "ISL69237",
            RendmpGenTwo::ISL69238 => "ISL69238",
            RendmpGenTwo::ISL69239 => "ISL69239",
            RendmpGenTwo::ISL69242 => "ISL69242",
            RendmpGenTwo::ISL69243 => "ISL69243",
            RendmpGenTwo::ISL69247 => "ISL69247",
            RendmpGenTwo::ISL69248 => "ISL69248",
            RendmpGenTwo::ISL69249 => "ISL69249",
            RendmpGenTwo::ISL69254 => "ISL69254",
            RendmpGenTwo::ISL69255 => "ISL69255",
            RendmpGenTwo::ISL69256 => "ISL69256",
            RendmpGenTwo::ISL69259 => "ISL69259",
            RendmpGenTwo::ISL69260 => "ISL69260",
            RendmpGenTwo::ISL69267 => "ISL69267",
            RendmpGenTwo::ISL69268 => "ISL69268",
            RendmpGenTwo::ISL69269 => "ISL69269",
            RendmpGenTwo::RAA228000 => "RAA228000",
            RendmpGenTwo::RAA228004 => "RAA228004",
            RendmpGenTwo::RAA228006 => "RAA228006",
            RendmpGenTwo::RAA229001 => "RAA229001",
            RendmpGenTwo::RAA229004 => "RAA229004",
            RendmpGenTwo::RAA229022 => "RAA229022",
            RendmpGenTwo::RAA229126 => "RAA229126",
        }
    }
}

/// Generation 2.5 of the controllers.
#[derive(Copy, Clone, Debug, PartialEq, Eq, Structural)]
pub enum RendmpGenTwoFive {
    RAA228218,
    RAA228227,
    RAA228228,
    RAA229618,
}

impl RendmpGenTwoFive {
    /// The 8-bit silicon ID of this model.
    pub open spec fn spec_id(self) -> u8 {
        match self {
            RendmpGenTwoFive::RAA228218 => 0x73,
            RendmpGenTwoFive::RAA228227 => 0x75,
            RendmpGenTwoFive::RAA228228 => 0x76,
            RendmpGenTwoFive::RAA229618 => 0x99,
        }
    }

    /// The 8-bit silicon ID of this model.
    #[verifier::when_used_as_spec(spec_id)]
    pub fn id(self) -> (r: u8)
        ensures
            r == self.spec_id(),
    {
        match self {
            RendmpGenTwoFive::RAA228218 => 0x73,
            RendmpGenTwoFive::RAA228227 => 0x75,
            RendmpGenTwoFive::RAA228228 => 0x76,
            RendmpGenTwoFive::RAA229618 => 0x99,
        }
    }

    /// The model with the given silicon ID; `None` where this generation has none.
    pub fn from_u8(id: u8) -> (r: Option<Self>)
        ensures
            match r {
                Some(m) => m.spec_id() == id,
                None => forall|m: Self| m.spec_id() != id,
            },
    {
        match id {
            0x73 => Some(RendmpGenTwoFive::RAA228218),
            0x75 => Some(RendmpGenTwoFive::RAA228227),
            0x76 => Some(RendmpGenTwoFive::RAA228228),
            0x99 => Some(RendmpGenTwoFive::RAA229618),
            _ => None,
        }
    }

    /// The name of this model, as it is printed.
    pub open spec fn spec_name(self) -> Seq<char> {
        match self {
            RendmpGenTwoFive::RAA228218 => "RAA228218"@,
            RendmpGenTwoFive::RAA228227 => "RAA228227"@,
            RendmpGenTwoFive::RAA228228 => "RAA228228"@,
            RendmpGenTwoFive::RAA229618 => "RAA229618"@,
        }
    }

    /// The name of this model, as it is printed.
    pub fn name(self) -> (r: &'static str)
        ensures
            r@ == self.spec_name(),
    {
        match self {
            RendmpGenTwoFive::RAA228218 => "RAA228218",
            RendmpGenTwoFive::RAA228227 => "RAA228227",
            RendmpGenTwoFive::RAA228228 => "RAA228228",
            RendmpGenTwoFive::RAA229618 => "RAA229618",
        }
    }
}

/// A device model: a tagged choice between the two generations.
#[derive(Copy, Clone, Debug, PartialEq, Eq, Structural)]
pub enum RendmpDevice {
    RendmpGenTwo(RendmpGenTwo),
    RendmpGenTwoFive(RendmpGenTwoFive),
}

/// No device model answers to the given ID or name.
#[derive(Copy, Clone, Debug, PartialEq, Eq, Structural)]
pub enum UnknownDevice {
    /// No model has this silicon ID.
    Id(u8),
    /// No model has the name that was asked for.
    Name,
}

/// A bank status block that is not exactly eight bytes long.
#[derive(Copy, Clone, Debug, PartialEq, Eq, Structural)]
pub struct ShortStatus;

/// The 4-bit code of bank `bank` in a status block: the low nibble of byte
/// `bank / 2` for an even bank, its high nibble for an odd one.
pub open spec fn bank_nibble(status: Seq<u8>, bank: int) -> u8 {
    if bank % 2 == 0 {
        status[bank / 2] & 0b1111
    } else {
        (status[bank / 2] >> 4) & 0b1111
    }
}

/// The decoded status of each of the sixteen banks.
pub open spec fn decode_banks(status: Seq<u8>) -> Seq<Option<RendmpBankStatus>> {
    Seq::new(16, |bank: int| RendmpBankStatus::spec_from_u8(bank_nibble(status, bank)))
}

impl RendmpDevice {
    /// The 8-bit silicon ID of this model.
    pub open spec fn spec_id(&self) -> u8 {
        match self {
            RendmpDevice::RendmpGenTwo(d) => d.spec_id(),
            RendmpDevice::RendmpGenTwoFive(d) => d.spec_id(),
        }
    }

    /// The 8-bit silicon ID of this model.
    #[verifier::when_used_as_spec(spec_id)]
    pub fn id(&self) -> (r: u8)
        ensures
            r == self.spec_id(),
    {
        match self {
            RendmpDevice::RendmpGenTwo(d) => d.id(),
            RendmpDevice::RendmpGenTwoFive(d) => d.id(),
        }
    }

    /// The name of this model, as it is printed.
    pub open spec fn spec_name(self) -> Seq<char> {
        match self {
            RendmpDevice::RendmpGenTwo(d) => d.spec_name(),
            RendmpDevice::RendmpGenTwoFive(d) => d.spec_name(),
        }
    }

    /// The name of this model, as it is printed.
    pub fn name(&self) -> (r: &'static str)
        ensures
            r@ == self.spec_name(),
    {
        match self {
            RendmpDevice::RendmpGenTwo(d) => d.name(),
            RendmpDevice::RendmpGenTwoFive(d) => d.name(),
        }
    }

    /// The model with the given silicon ID, or `UnknownDevice::Id`.
    pub open spec fn spec_from_id(id: u8) -> Result<RendmpDevice, UnknownDevice> {
        if exists|d: RendmpDevice| d.spec_id() == id {
            Ok(choose|d: RendmpDevice| d.spec_id() == id)
        } else {
            Err(UnknownDevice::Id(id))
        }
    }

    /// Finds the model with the given silicon ID.
    ///
    /// Succeeds exactly for the IDs of the two generations, with the one
    /// model that has the ID (see `lemma_id_injective`); any other ID is
    /// `UnknownDevice::Id`.
    pub fn from_id(id: u8) -> (r: Result<RendmpDevice, UnknownDevice>)
        ensures
            r == Self::spec_from_id(id),
            match r {
                Ok(d) => d.spec_id() == id,
                Err(e) => e == UnknownDevice::Id(id) && forall|d: RendmpDevice| d.spec_id() != id,
            },
    {
        let r = match RendmpGenTwo::from_u8(id) {
            Some(d) => Ok(RendmpDevice::RendmpGenTwo(d)),
            None => match RendmpGenTwoFive::from_u8(id) {
                Some(d) => Ok(RendmpDevice::RendmpGenTwoFive(d)),
                None => Err(UnknownDevice::Id(id)),
            },
        };
        proof {
            match r {
                Ok(d) => {
                    assert(d.spec_id() == id);
                    lemma_id_injective(d, choose|c: RendmpDevice| c.spec_id() == id);
                },
                Err(_) => {
                    assert forall|d: RendmpDevice| d.spec_id() != id by {
                        match d {
                            RendmpDevice::RendmpGenTwo(g) => {
                                assert(g.spec_id() != id);
                            },
                            RendmpDevice::RendmpGenTwoFive(g) => {
                                assert(g.spec_id() != id);
                            },
                        }
                    }
                },
            }
        }
        r
    }

    /// Finds the model whose name is `name`, letter for letter.
    pub fn from_name(name: &str) -> (r: Result<RendmpDevice, UnknownDevice>)
        ensures
            match r {
                Ok(d) => d.spec_name() == name@,
                Err(e) => e == UnknownDevice::Name && forall|d: RendmpDevice|
                    d.spec_name() != name@,
            },
    {
        let search = String::from_str(name);
        let mut i: u8 = 0;
        while i < 255
            invariant
                search@ == name@,
                forall|d: RendmpDevice| d.spec_id() < i ==> #[trigger] d.spec_name() != search@,
            decreases 255 - i,
        {
            let found = Self::from_id(i);
            if let Ok(d) = found {
                let name = String::from_str(d.name());
                if search == name {
                    return Ok(d);
                }
            }
            proof {
                assert forall|d: RendmpDevice| d.spec_id() < i + 1 implies #[trigger] d.spec_name()
                    != search@ by {
                    if d.spec_id() == i {
                        if let Ok(f) = found {
                            lemma_id_injective(d, f);
                        }
                    }
                }
            }
            i += 1;
        }
        proof {
            assert forall|d: RendmpDevice| d.spec_name() != name@ by {
                lemma_id_bound(d);
            }
        }
        Err(UnknownDevice::Name)
    }

    /// Finds the model with the given name, whatever the case of its letters.
    ///
    /// The name is upper-cased as `str::to_uppercase` does it and then looked
    /// up with `from_name`.  In particular the printed name of a model, in
    /// any mix of ASCII upper and lower case, finds that model.
    pub fn from_str(device: &str) -> (r: Result<RendmpDevice, UnknownDevice>)
        ensures
            match r {
                Ok(d) => d.spec_name() == uppercase(device@),
                Err(e) => e == UnknownDevice::Name && forall|d: RendmpDevice|
                    d.spec_name() != uppercase(device@),
            },
            forall|m: RendmpDevice|
                ascii_uppercase(device@) == #[trigger] m.spec_name() ==> r == Ok::<
                    RendmpDevice,
                    UnknownDevice,
                >(m),
    {
        let search = to_uppercase(device);
        let r = Self::from_name(search.as_str());
        proof {
            assert forall|m: RendmpDevice|
                ascii_uppercase(device@) == #[trigger] m.spec_name() implies r == Ok::<
                RendmpDevice,
                UnknownDevice,
            >(m) by {
                lemma_folded_name_alphanumeric(m, device@);
                if let Ok(d) = r {
                    lemma_name_injective(m, d);
                }
            }
        }
        r
    }

    /// The number of record lines in an image for this model.
    pub open spec fn spec_lines(&self) -> usize {
        match self {
            RendmpDevice::RendmpGenTwo(_) => 648,
            RendmpDevice::RendmpGenTwoFive(_) => 582,
        }
    }

    /// The number of record lines in an image for this model: those of the
    /// fixed part and of the one configuration that is supported.
    #[verifier::when_used_as_spec(spec_lines)]
    pub fn lines(&self) -> (r: usize)
        ensures
            r == self.spec_lines(),
    {
        let num_configs: usize = 1;
        match self {
            RendmpDevice::RendmpGenTwo(_) => 290 + (358 * num_configs),
            RendmpDevice::RendmpGenTwoFive(_) => 273 + (309 * num_configs),
        }
    }

    /// The line of the image at which the CRC record stands.
    pub open spec fn spec_crc_line(&self) -> usize {
        match self {
            RendmpDevice::RendmpGenTwo(_) => 600,
            RendmpDevice::RendmpGenTwoFive(_) => 526,
        }
    }

    /// The line of the image at which the CRC record stands.
    #[verifier::when_used_as_spec(spec_crc_line)]
    pub fn crc_line(&self) -> (r: usize)
        ensures
            r == self.spec_crc_line(),
    {
        match self {
            RendmpDevice::RendmpGenTwo(_) => 600,
            RendmpDevice::RendmpGenTwoFive(_) => 526,
        }
    }

    /// The register that holds the number of NVM slots that remain.
    pub open spec fn slot_register(self) -> u16 {
        match self {
            RendmpDevice::RendmpGenTwo(_) => 0x00c2,
            RendmpDevice::RendmpGenTwoFive(_) => 0x00c4,
        }
    }

    /// The register that holds the CRC of the configuration in OTP.
    pub open spec fn crc_register(self) -> u16 {
        match self {
            RendmpDevice::RendmpGenTwo(_) => 0x003f,
            RendmpDevice::RendmpGenTwoFive(_) => 0x003c,
        }
    }

    /// The register that holds the programmer status word.
    pub open spec fn programmer_status_register(self) -> u16 {
        0x0707
    }

    /// The register at which the bank status block starts.
    pub open spec fn bank_status_register(self) -> u16 {
        0x0709
    }

    /// The address of the slot register, low byte first.
    pub fn slot_addr(&self) -> (r: [u8; 2])
        ensures
            r@ == le_bytes_u16(self.slot_register()),
    {
        let addr: u16 = match self {
            RendmpDevice::RendmpGenTwo(_) => 0x00c2u16,
            RendmpDevice::RendmpGenTwoFive(_) => 0x00c4u16,
        };
        u16_to_le(addr)
    }

    /// The address of the CRC register, low byte first.
    pub fn crc_addr(&self) -> (r: [u8; 2])
        ensures
            r@ == le_bytes_u16(self.crc_register()),
    {
        let addr: u16 = match self {
            RendmpDevice::RendmpGenTwo(_) => 0x003fu16,
            RendmpDevice::RendmpGenTwoFive(_) => 0x003cu16,
        };
        u16_to_le(addr)
    }

    /// The address of the programmer status register, low byte first.
    pub fn programmer_status_addr(&self) -> (r: [u8; 2])
        ensures
            r@ == le_bytes_u16(self.programmer_status_register()),
    {
        u16_to_le(0x0707u16)
    }

    /// The address of the bank status block, low byte first.
    pub fn bank_status_addr(&self) -> (r: [u8; 2])
        ensures
            r@ == le_bytes_u16(self.bank_status_register()),
    {
        u16_to_le(0x0709u16)
    }

    /// Classifies a programmer status word.
    pub fn check_programmer_status(&self, status: u16) -> (r: Result<(), FlashFailure>)
        ensures
            r == programmer_status(status),
    {
        if status & 0b0_0000_0001 == 1 {
            Ok(())
        } else if status & 0b0_0001_0000 != 0 {
            Err(FlashFailure::RamCrcMismatch)
        } else if status & 0b0_0100_0000 != 0 {
            Err(FlashFailure::OtpCrcMismatch)
        } else if status & 0b1_0000_0000 != 0 {
            Err(FlashFailure::ConfigUnavailable)
        } else {
            Err(FlashFailure::Unknown { status })
        }
    }

    /// Decodes a bank status block into the status of each of its sixteen
    /// banks.  A nibble that is no status code gives `None` for its bank.
    pub fn bank_status(&self, status: &[u8]) -> (r: Result<
        Vec<Option<RendmpBankStatus>>,
        ShortStatus,
    >)
        ensures
            match r {
                Ok(banks) => status@.len() == 8 && banks@ == decode_banks(status@),
                Err(_) => status@.len() != 8,
            },
    {
        let mut rval: Vec<Option<RendmpBankStatus>> = Vec::new();
        if status.len() != 8 {
            return Err(ShortStatus);
        }
        let mut i: usize = 0;
        while i < 8
            invariant
                0 <= i <= 8,
                status@.len() == 8,
                rval@.len() == 2 * i,
                forall|bank: int|
                    0 <= bank < 2 * i ==> #[trigger] rval@[bank] == RendmpBankStatus::spec_from_u8(
                        bank_nibble(status@, bank),
                    ),
            decreases 8 - i,
        {
            let s = status[i];
            rval.push(RendmpBankStatus::from_u8(s & 0b1111));
            rval.push(RendmpBankStatus::from_u8((s >> 4) & 0b1111));
            i += 1;
        }
        assert(rval@ =~= decode_banks(status@));
        Ok(rval)
    }
}

/// The 4-bit codes that stand for a bank status.
pub open spec fn is_bank_code(code: u8) -> bool {
    code == 0 || code == 1 || code == 4 || code == 8
}

/// Of every byte, each nibble decodes to a status exactly when it holds one
/// of the four status codes, and to `None` otherwise: the reserved code and
/// the codes that are not in use stand for no status.  The low nibble of a
/// byte is the byte modulo 16, its high nibble the byte over 16.
pub proof fn lemma_bank_decode(status: Seq<u8>, bank: int)
    requires
        status.len() == 8,
        0 <= bank < 16,
    ensures
        bank_nibble(status, bank) < 16,
        bank_nibble(status, bank) == if bank % 2 == 0 {
            status[bank / 2] % 16
        } else {
            status[bank / 2] / 16
        },
        decode_banks(status)[bank] is Some <==> is_bank_code(bank_nibble(status, bank)),
        decode_banks(status)[bank] != Some(RendmpBankStatus::Reserved),
        decode_banks(status)[bank] matches Some(s) ==> s.spec_code() == bank_nibble(
            status,
            bank,
        ),
{
    let byte = status[bank / 2];
    assert(byte & 0b1111 == byte % 16) by (bit_vector);
    assert((byte >> 4) & 0b1111 == byte / 16) by (bit_vector);
}

/// A status block of zero bytes says that every bank is unaffected.
pub proof fn lemma_bank_decode_zero(status: Seq<u8>)
    requires
        status.len() == 8,
        forall|i: int| 0 <= i < 8 ==> status[i] == 0,
    ensures
        decode_banks(status) == Seq::new(
            16,
            |bank: int| Some(RendmpBankStatus::BankUnaffected),
        ),
{
    assert(0u8 & 0b1111 == 0) by (bit_vector);
    assert((0u8 >> 4) & 0b1111 == 0) by (bit_vector);
    assert forall|bank: int| 0 <= bank < 16 implies decode_banks(status)[bank] == Some(
        RendmpBankStatus::BankUnaffected,
    ) by {
        assert(status[bank / 2] == 0);
    }
    assert(decode_banks(status) =~= Seq::new(
        16,
        |bank: int| Some(RendmpBankStatus::BankUnaffected),
    ));
}

/// No two models share a silicon ID, within a generation or across the two.
pub proof fn lemma_id_injective(a: RendmpDevice, b: RendmpDevice)
    requires
        a.spec_id() == b.spec_id(),
    ensures
        a == b,
{
}

/// Every model is found by its own ID.
pub proof fn lemma_from_id_finds(d: RendmpDevice)
    ensures
        RendmpDevice::spec_from_id(d.spec_id()) == Ok::<RendmpDevice, UnknownDevice>(d),
{
    let c = choose|c: RendmpDevice| c.spec_id() == d.spec_id();
    lemma_id_injective(c, d);
}

/// No model has the ID 255, so a search over the IDs below 255 sees every
/// model.
pub proof fn lemma_id_bound(d: RendmpDevice)
    ensures
        d.spec_id() < 255,
{
}

/// What the spelling of the names shows: the name of a model is made of
/// upper-case ASCII letters and digits, and no two models share a name.
proof fn lemma_names(a: RendmpDevice, b: RendmpDevice)
    ensures
        forall|i: int|
            0 <= i < a.spec_name().len() ==> crate::text::is_ascii_upper_or_digit(
                #[trigger] a.spec_name()[i],
            ),
        a.spec_name() == b.spec_name() ==> a == b,
{
    reveal_strlit("ISL68220");
    reveal_strlit("ISL68221");
    reveal_strlit("ISL68222");
    reveal_strlit("ISL68223");
    reveal_strlit("ISL68224");
    reveal_strlit("ISL68225");
    reveal_strlit("ISL68226");
    reveal_strlit("ISL68227");
    reveal_strlit("ISL68229");
    reveal_strlit("ISL68233");
    reveal_strlit("ISL68236");
    reveal_strlit("ISL68239");
    reveal_strlit("ISL69222");
    reveal_strlit("ISL69223");
    reveal_strlit("ISL69224");
    reveal_strlit("ISL69225");
    reveal_strlit("ISL69227");
    reveal_strlit("ISL69228");
    reveal_strlit("ISL69234");
    reveal_strlit("ISL69236");
    reveal_strlit("ISL69237");
    reveal_strlit("ISL69238");
    reveal_strlit("ISL69239");
    reveal_strlit("ISL69242");
    reveal_strlit("ISL69243");
    reveal_strlit("ISL69247");
    reveal_strlit("ISL69248");
    reveal_strlit("ISL69249");
    reveal_strlit("ISL69254");
    reveal_strlit("ISL69255");
    reveal_strlit("ISL69256");
    reveal_strlit("ISL69259");
    reveal_strlit("ISL69260");
    reveal_strlit("ISL69267");
    reveal_strlit("ISL69268");
    reveal_strlit("ISL69269");
    reveal_strlit("RAA228000");
    reveal_strlit("RAA228004");
    reveal_strlit("RAA228006");
    reveal_strlit("RAA229001");
    reveal_strlit("RAA229004");
    reveal_strlit("RAA229022");
    reveal_strlit("RAA229126");
    reveal_strlit("RAA228218");
    reveal_strlit("RAA228227");
    reveal_strlit("RAA228228");
    reveal_strlit("RAA229618");
    if a.spec_name() == b.spec_name() {
        let (x, y) = (a.spec_name(), b.spec_name());
        assert(x.len() == y.len());
        assert(x[0] == y[0] && x[1] == y[1] && x[2] == y[2] && x[3] == y[3] && x[4] == y[4]);
        assert(x[5] == y[5] && x[6] == y[6] && x[7] == y[7] && x[8] == y[8]);
    }
}

/// The name of a model is made of upper-case ASCII letters and digits.
pub proof fn lemma_name_upper_or_digit(d: RendmpDevice)
    ensures
        forall|i: int|
            0 <= i < d.spec_name().len() ==> crate::text::is_ascii_upper_or_digit(
                #[trigger] d.spec_name()[i],
            ),
{
    lemma_names(d, d);
}

/// No two models share a name.
pub proof fn lemma_name_injective(a: RendmpDevice, b: RendmpDevice)
    requires
        a.spec_name() == b.spec_name(),
    ensures
        a == b,
{
    lemma_names(a, b);
}

/// A string that is the name of a model up to the case of its ASCII letters
/// is made of ASCII letters and digits, and `str::to_uppercase` turns it into
/// that name.
proof fn lemma_folded_name_alphanumeric(m: RendmpDevice, s: Seq<char>)
    requires
        ascii_uppercase(s) == m.spec_name(),
    ensures
        crate::text::all_ascii_alphanumeric(s),
{
    lemma_name_upper_or_digit(m);
    assert forall|i: int| 0 <= i < s.len() implies is_ascii_alphanumeric(#[trigger] s[i]) by {
        assert(ascii_uppercase(s)[i] == crate::text::ascii_upper_char(s[i]));
        assert(crate::text::is_ascii_upper_or_digit(m.spec_name()[i]));
    }
}

} // verus!
