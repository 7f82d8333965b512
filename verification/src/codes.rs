//! The LDAP result-code enumeration, with the fixed, non-contiguous integer
//! values of RFC 4511. Gaps in the numbering are reserved codes; an integer
//! outside the table is not representable and is reported by the caller.

use vstd::prelude::*;

verus! {

/// An LDAP result code.
#[derive(Clone, Copy, Debug, PartialEq, Eq, Structural)]
pub enum LdapResultCode {
    Success,
    OperationsError,
    ProtocolError,
    TimeLimitExceeded,
    SizeLimitExceeded,
    CompareFalse,
    CompareTrue,
    AuthMethodNotSupported,
    StrongerAuthRequired,
    Referral,
    AdminLimitExceeded,
    UnavailableCriticalExtension,
    ConfidentialityRequired,
    SaslBindInProgress,
    NoSuchAttribute,
    UndefinedAttributeType,
    InappropriateMatching,
    ConstraintViolation,
    AttributeOrValueExists,
    InvalidAttributeSyntax,
    NoSuchObject,
    AliasProblem,
    InvalidDNSyntax,
    AliasDereferencingProblem,
    InappropriateAuthentication,
    InvalidCredentials,
    InsufficentAccessRights,
    Busy,
    Unavailable,
    UnwillingToPerform,
    LoopDetect,
    NamingViolation,
    ObjectClassViolation,
    NotAllowedOnNonLeaf,
    NotALlowedOnRDN,
    EntryAlreadyExists,
    ObjectClassModsProhibited,
    AffectsMultipleDSAs,
    Other,
}

/// The wire value of a result code.
pub open spec fn spec_result_code_value(c: LdapResultCode) -> int {
    match c {
        LdapResultCode::Success => 0,
        LdapResultCode::OperationsError => 1,
        LdapResultCode::ProtocolError => 2,
        LdapResultCode::TimeLimitExceeded => 3,
        LdapResultCode::SizeLimitExceeded => 4,
        LdapResultCode::CompareFalse => 5,
        LdapResultCode::CompareTrue => 6,
        LdapResultCode::AuthMethodNotSupported => 7,
        LdapResultCode::StrongerAuthRequired => 8,
        LdapResultCode::Referral => 10,
        LdapResultCode::AdminLimitExceeded => 11,
        LdapResultCode::UnavailableCriticalExtension => 12,
        LdapResultCode::ConfidentialityRequired => 13,
        LdapResultCode::SaslBindInProgress => 14,
        LdapResultCode::NoSuchAttribute => 16,
        LdapResultCode::UndefinedAttributeType => 17,
        LdapResultCode::InappropriateMatching => 18,
        LdapResultCode::ConstraintViolation => 19,
        LdapResultCode::AttributeOrValueExists => 20,
        LdapResultCode::InvalidAttributeSyntax => 21,
        LdapResultCode::NoSuchObject => 32,
        LdapResultCode::AliasProblem => 33,
        LdapResultCode::InvalidDNSyntax => 34,
        LdapResultCode::AliasDereferencingProblem => 35,
        LdapResultCode::InappropriateAuthentication => 48,
        LdapResultCode::InvalidCredentials => 49,
        LdapResultCode::InsufficentAccessRights => 50,
        LdapResultCode::Busy => 51,
        LdapResultCode::Unavailable => 52,
        LdapResultCode::UnwillingToPerform => 53,
        LdapResultCode::LoopDetect => 54,
        LdapResultCode::NamingViolation => 64,
        LdapResultCode::ObjectClassViolation => 65,
        LdapResultCode::NotAllowedOnNonLeaf => 66,
        LdapResultCode::NotALlowedOnRDN => 67,
        LdapResultCode::EntryAlreadyExists => 68,
        LdapResultCode::ObjectClassModsProhibited => 69,
        LdapResultCode::AffectsMultipleDSAs => 71,
        LdapResultCode::Other => 80,
    }
}

/// The result code with a given wire value, if the table holds one.
pub open spec fn spec_result_code_from(v: int) -> Option<LdapResultCode> {
    if v == 0 {
        Some(LdapResultCode::Success)
    } else if v == 1 {
        Some(LdapResultCode::OperationsError)
    } else if v == 2 {
        Some(LdapResultCode::ProtocolError)
    } else if v == 3 {
        Some(LdapResultCode::TimeLimitExceeded)
    } else if v == 4 {
        Some(LdapResultCode::SizeLimitExceeded)
    } else if v == 5 {
        Some(LdapResultCode::CompareFalse)
    } else if v == 6 {
        Some(LdapResultCode::CompareTrue)
    } else if v == 7 {
        Some(LdapResultCode::AuthMethodNotSupported)
    } else if v == 8 {
        Some(LdapResultCode::StrongerAuthRequired)
    } else if v == 10 {
        Some(LdapResultCode::Referral)
    } else if v == 11 {
        Some(LdapResultCode::AdminLimitExceeded)
    } else if v == 12 {
        Some(LdapResultCode::UnavailableCriticalExtension)
    } else if v == 13 {
        Some(LdapResultCode::ConfidentialityRequired)
    } else if v == 14 {
        Some(LdapResultCode::SaslBindInProgress)
    } else if v == 16 {
        Some(LdapResultCode::NoSuchAttribute)
    } else if v == 17 {
        Some(LdapResultCode::UndefinedAttributeType)
    } else if v == 18 {
        Some(LdapResultCode::InappropriateMatching)
    } else if v == 19 {
        Some(LdapResultCode::ConstraintViolation)
    } else if v == 20 {
        Some(LdapResultCode::AttributeOrValueExists)
    } else if v == 21 {
        Some(LdapResultCode::InvalidAttributeSyntax)
    } else if v == 32 {
        Some(LdapResultCode::NoSuchObject)
    } else if v == 33 {
        Some(LdapResultCode::AliasProblem)
    } else if v == 34 {
        Some(LdapResultCode::InvalidDNSyntax)
    } else if v == 35 {
        Some(LdapResultCode::AliasDereferencingProblem)
    } else if v == 48 {
        Some(LdapResultCode::InappropriateAuthentication)
    } else if v == 49 {
        Some(LdapResultCode::InvalidCredentials)
    } else if v == 50 {
        Some(LdapResultCode::InsufficentAccessRights)
    } else if v == 51 {
        Some(LdapResultCode::Busy)
    } else if v == 52 {
        Some(LdapResultCode::Unavailable)
    } else if v == 53 {
        Some(LdapResultCode::UnwillingToPerform)
    } else if v == 54 {
        Some(LdapResultCode::LoopDetect)
    } else if v == 64 {
        Some(LdapResultCode::NamingViolation)
    } else if v == 65 {
        Some(LdapResultCode::ObjectClassViolation)
    } else if v == 66 {
        Some(LdapResultCode::NotAllowedOnNonLeaf)
    } else if v == 67 {
        Some(LdapResultCode::NotALlowedOnRDN)
    } else if v == 68 {
        Some(LdapResultCode::EntryAlreadyExists)
    } else if v == 69 {
        Some(LdapResultCode::ObjectClassModsProhibited)
    } else if v == 71 {
        Some(LdapResultCode::AffectsMultipleDSAs)
    } else if v == 80 {
        Some(LdapResultCode::Other)
    } else {
        None
    }
}

/// Looking a code's own value back up in the table returns that code.
pub proof fn lemma_result_code_round_trip(c: LdapResultCode)
    ensures
        spec_result_code_from(spec_result_code_value(c)) == Some(c),
{
}

impl LdapResultCode {
    /// The fixed RFC 4511 integer value of this result code.
    pub fn value(&self) -> (r: i64)
        ensures
            r as int == spec_result_code_value(*self),
    {
        match self {
            LdapResultCode::Success => 0,
            LdapResultCode::OperationsError => 1,
            LdapResultCode::ProtocolError => 2,
            LdapResultCode::TimeLimitExceeded => 3,
            LdapResultCode::SizeLimitExceeded => 4,
            LdapResultCode::CompareFalse => 5,
            LdapResultCode::CompareTrue => 6,
            LdapResultCode::AuthMethodNotSupported => 7,
            LdapResultCode::StrongerAuthRequired => 8,
            LdapResultCode::Referral => 10,
            LdapResultCode::AdminLimitExceeded => 11,
            LdapResultCode::UnavailableCriticalExtension => 12,
            LdapResultCode::ConfidentialityRequired => 13,
            LdapResultCode::SaslBindInProgress => 14,
            LdapResultCode::NoSuchAttribute => 16,
            LdapResultCode::UndefinedAttributeType => 17,
            LdapResultCode::InappropriateMatching => 18,
            LdapResultCode::ConstraintViolation => 19,
            LdapResultCode::AttributeOrValueExists => 20,
            LdapResultCode::InvalidAttributeSyntax => 21,
            LdapResultCode::NoSuchObject => 32,
            LdapResultCode::AliasProblem => 33,
            LdapResultCode::InvalidDNSyntax => 34,
            LdapResultCode::AliasDereferencingProblem => 35,
            LdapResultCode::InappropriateAuthentication => 48,
            LdapResultCode::InvalidCredentials => 49,
            LdapResultCode::InsufficentAccessRights => 50,
            LdapResultCode::Busy => 51,
            LdapResultCode::Unavailable => 52,
            LdapResultCode::UnwillingToPerform => 53,
            LdapResultCode::LoopDetect => 54,
            LdapResultCode::NamingViolation => 64,
            LdapResultCode::ObjectClassViolation => 65,
            LdapResultCode::NotAllowedOnNonLeaf => 66,
            LdapResultCode::NotALlowedOnRDN => 67,
            LdapResultCode::EntryAlreadyExists => 68,
            LdapResultCode::ObjectClassModsProhibited => 69,
            LdapResultCode::AffectsMultipleDSAs => 71,
            LdapResultCode::Other => 80,
        }
    }

    /// Looks up a result code by its integer wire value.
    pub fn from_i64(v: i64) -> (r: Option<LdapResultCode>)
        ensures
            r == spec_result_code_from(v as int),
    {
        if v == 0 {
            Some(LdapResultCode::Success)
        } else if v == 1 {
            Some(LdapResultCode::OperationsError)
        } else if v == 2 {
            Some(LdapResultCode::ProtocolError)
        } else if v == 3 {
            Some(LdapResultCode::TimeLimitExceeded)
        } else if v == 4 {
            Some(LdapResultCode::SizeLimitExceeded)
        } else if v == 5 {
            Some(LdapResultCode::CompareFalse)
        } else if v == 6 {
            Some(LdapResultCode::CompareTrue)
        } else if v == 7 {
            Some(LdapResultCode::AuthMethodNotSupported)
        } else if v == 8 {
            Some(LdapResultCode::StrongerAuthRequired)
        } else if v == 10 {
            Some(LdapResultCode::Referral)
        } else if v == 11 {
            Some(LdapResultCode::AdminLimitExceeded)
        } else if v == 12 {
            Some(LdapResultCode::UnavailableCriticalExtension)
        } else if v == 13 {
            Some(LdapResultCode::ConfidentialityRequired)
        } else if v == 14 {
            Some(LdapResultCode::SaslBindInProgress)
        } else if v == 16 {
            Some(LdapResultCode::NoSuchAttribute)
        } else if v == 17 {
            Some(LdapResultCode::UndefinedAttributeType)
        } else if v == 18 {
            Some(LdapResultCode::InappropriateMatching)
        } else if v == 19 {
            Some(LdapResultCode::ConstraintViolation)
        } else if v == 20 {
            Some(LdapResultCode::AttributeOrValueExists)
        } else if v == 21 {
            Some(LdapResultCode::InvalidAttributeSyntax)
        } else if v == 32 {
            Some(LdapResultCode::NoSuchObject)
        } else if v == 33 {
            Some(LdapResultCode::AliasProblem)
        } else if v == 34 {
            Some(LdapResultCode::InvalidDNSyntax)
        } else if v == 35 {
            Some(LdapResultCode::AliasDereferencingProblem)
        } else if v == 48 {
            Some(LdapResultCode::InappropriateAuthentication)
        } else if v == 49 {
            Some(LdapResultCode::InvalidCredentials)
        } else if v == 50 {
            Some(LdapResultCode::InsufficentAccessRights)
        } else if v == 51 {
            Some(LdapResultCode::Busy)
        } else if v == 52 {
            Some(LdapResultCode::Unavailable)
        } else if v == 53 {
            Some(LdapResultCode::UnwillingToPerform)
        } else if v == 54 {
            Some(LdapResultCode::LoopDetect)
        } else if v == 64 {
            Some(LdapResultCode::NamingViolation)
        } else if v == 65 {
            Some(LdapResultCode::ObjectClassViolation)
        } else if v == 66 {
            Some(LdapResultCode::NotAllowedOnNonLeaf)
        } else if v == 67 {
            Some(LdapResultCode::NotALlowedOnRDN)
        } else if v == 68 {
            Some(LdapResultCode::EntryAlreadyExists)
        } else if v == 69 {
            Some(LdapResultCode::ObjectClassModsProhibited)
        } else if v == 71 {
            Some(LdapResultCode::AffectsMultipleDSAs)
        } else if v == 80 {
            Some(LdapResultCode::Other)
        } else {
            None
        }
    }
}

} // verus!
