//! Programmer and bank status, as the controller reports them.

use vstd::prelude::*;

verus! {

/// The outcome that one OTP bank reports in its status nibble.  The code of
/// `Reserved` has no meaning yet: a nibble that holds it decodes to no
/// status.
#[allow(non_camel_case_types)]
#[derive(Copy, Clone, Debug, PartialEq, Eq, Structural)]
pub enum RendmpBankStatus {
    CRCMismatchOTP,
    CRCMismatchRAM,
    Reserved,
    BankWritten,
    BankUnaffected,
}

impl RendmpBankStatus {
    /// The 4-bit code of this status.
    pub open spec fn spec_code(self) -> u8 {
        match self {
            RendmpBankStatus::CRCMismatchOTP => 0b1000,
            RendmpBankStatus::CRCMismatchRAM => 0b0100,
            RendmpBankStatus::Reserved => 0b0010,
            RendmpBankStatus::BankWritten => 0b0001,
            RendmpBankStatus::BankUnaffected => 0b0000,
        }
    }

    /// The 4-bit code of this status.
    #[verifier::when_used_as_spec(spec_code)]
    pub fn code(self) -> (r: u8)
        ensures
            r == self.spec_code(),
    {
        match self {
            RendmpBankStatus::CRCMismatchOTP => 0b1000,
            RendmpBankStatus::CRCMismatchRAM => 0b0100,
            RendmpBankStatus::Reserved => 0b0010,
            RendmpBankStatus::BankWritten => 0b0001,
            RendmpBankStatus::BankUnaffected => 0b0000,
        }
    }

    /// The status that a nibble with the code `code` reports, if the code
    /// has a meaning.  The reserved code has none.
    pub open spec fn spec_from_u8(code: u8) -> Option<RendmpBankStatus> {
        if code == 0b1000 {
            Some(RendmpBankStatus::CRCMismatchOTP)
        } else if code == 0b0100 {
            Some(RendmpBankStatus::CRCMismatchRAM)
        } else if code == 0b0001 {
            Some(RendmpBankStatus::BankWritten)
        } else if code == 0b0000 {
            Some(RendmpBankStatus::BankUnaffected)
        } else {
            None
        }
    }

    /// The status that a nibble with the code `code` reports; `None` for the
    /// reserved code and for the codes that are not in use.
    pub fn from_u8(code: u8) -> (r: Option<RendmpBankStatus>)
        ensures
            r == Self::spec_from_u8(code),
    {
        match code {
            0b1000 => Some(RendmpBankStatus::CRCMismatchOTP),
            0b0100 => Some(RendmpBankStatus::CRCMismatchRAM),
            0b0001 => Some(RendmpBankStatus::BankWritten),
            0b0000 => Some(RendmpBankStatus::BankUnaffected),
            _ => None,
        }
    }

    /// What this status means, in words.
    pub open spec fn spec_description(self) -> Seq<char> {
        match self {
            RendmpBankStatus::CRCMismatchOTP => "CRC mismatch with OTP"@,
            RendmpBankStatus::CRCMismatchRAM => "CRC mismatch with RAM"@,
            RendmpBankStatus::Reserved => "<reserved>"@,
            RendmpBankStatus::BankWritten => "bank written successfully"@,
            RendmpBankStatus::BankUnaffected => "bank unaffected"@,
        }
    }

    /// What this status means, in words.
    pub fn description(self) -> (r: &'static str)
        ensures
            r@ == self.spec_description(),
    {
        match self {
            RendmpBankStatus::CRCMismatchOTP => "CRC mismatch with OTP",
            RendmpBankStatus::CRCMismatchRAM => "CRC mismatch with RAM",
            RendmpBankStatus::Reserved => "<reserved>",
            RendmpBankStatus::BankWritten => "bank written successfully",
            RendmpBankStatus::BankUnaffected => "bank unaffected",
        }
    }
}

/// Why the programmer says that flashing did not succeed.
#[derive(Copy, Clone, Debug, PartialEq, Eq, Structural)]
pub enum FlashFailure {
    /// CRC mismatch within RAM data.
    RamCrcMismatch,
    /// CRC mismatch within OTP data.
    OtpCrcMismatch,
    /// Configurations not available.
    ConfigUnavailable,
    /// None of the documented failure bits is set; the raw word is kept.
    Unknown { status: u16 },
}

/// What a programmer status word says: success when bit 0 is set; otherwise
/// the failure named by the lowest of bits 4, 6 and 8 that is set; otherwise
/// an unknown failure that carries the word.
pub open spec fn programmer_status(status: u16) -> Result<(), FlashFailure> {
    if status & 0b0_0000_0001 == 1 {
        Ok(())
    } else if status & 0b0_0001_0000 != 0 {
        Err(FlashFailure::RamCrcMismatch)
    } else if status & 0b0_0100_0000 != 0 {
        Err(FlashFailure::OtpCrcMismatch)
    } else if status & 0b1_0000_0000 != 0 {
        Err(FlashFailure::ConfigUnavailable)
    } else {
        Err(FlashFailure::Unknown { status })
    }
}

/// Bit `bit` of a status word is set.
pub open spec fn bit_set(status: u16, bit: nat) -> bool {
    (status as int / vstd::arithmetic::power2::pow2(bit) as int) % 2 == 1
}

/// A status word is classified by its bits 0, 4, 6 and 8, in this order.
pub proof fn lemma_programmer_status_bits(status: u16)
    ensures
        programmer_status(status) is Ok <==> bit_set(status, 0),
        programmer_status(status) == Err::<(), FlashFailure>(FlashFailure::RamCrcMismatch)
            <==> !bit_set(status, 0) && bit_set(status, 4),
        programmer_status(status) == Err::<(), FlashFailure>(FlashFailure::OtpCrcMismatch)
            <==> !bit_set(status, 0) && !bit_set(status, 4) && bit_set(status, 6),
        programmer_status(status) == Err::<(), FlashFailure>(FlashFailure::ConfigUnavailable)
            <==> !bit_set(status, 0) && !bit_set(status, 4) && !bit_set(status, 6) && bit_set(
            status,
            8,
        ),
        programmer_status(status) == Err::<(), FlashFailure>(FlashFailure::Unknown { status })
            <==> !bit_set(status, 0) && !bit_set(status, 4) && !bit_set(status, 6) && !bit_set(
            status,
            8,
        ),
{
    vstd::arithmetic::power2::lemma2_to64();
    assert((status & 0b0_0000_0001 == 1) == (status % 2 == 1)) by (bit_vector);
    assert((status & 0b0_0001_0000 != 0) == ((status / 16) % 2 == 1)) by (bit_vector);
    assert((status & 0b0_0100_0000 != 0) == ((status / 64) % 2 == 1)) by (bit_vector);
    assert((status & 0b1_0000_0000 != 0) == ((status / 256) % 2 == 1)) by (bit_vector);
}

impl FlashFailure {
    /// The fixed part of the message for this failure.
    pub open spec fn spec_description(self) -> Seq<char> {
        match self {
            FlashFailure::RamCrcMismatch => "flashing failed: CRC mismatch within RAM data"@,
            FlashFailure::OtpCrcMismatch => "flashing failed: CRC mismatch within OTP data"@,
            FlashFailure::ConfigUnavailable => "flashing failed: configurations not available"@,
            FlashFailure::Unknown { .. } => "flashing failed: unknown failure"@,
        }
    }

    /// The fixed part of the message for this failure.
    pub fn description(self) -> (r: &'static str)
        ensures
            r@ == self.spec_description(),
    {
        match self {
            FlashFailure::RamCrcMismatch => "flashing failed: CRC mismatch within RAM data",
            FlashFailure::OtpCrcMismatch => "flashing failed: CRC mismatch within OTP data",
            FlashFailure::ConfigUnavailable => "flashing failed: configurations not available",
            FlashFailure::Unknown { .. } => "flashing failed: unknown failure",
        }
    }
}

} // verus!
