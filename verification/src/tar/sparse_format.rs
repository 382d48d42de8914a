//! The versions of the GNU formats for sparse files.
use vstd::prelude::*;
use vstd::string::StringExecFns;

verus! {

/// A version of the GNU sparse file format.
#[derive(PartialEq, Eq, Clone, Copy, Debug, Structural)]
pub enum SparseFormat {
    GnuOld,
    Gnu0_0,
    Gnu0_1,
    Gnu1_0,
    GnuUnknownSparseFormat { major: u32, minor: u32 },
}

/// The decimal digits of `n`.
pub open spec fn decimal_text(n: nat) -> Seq<char>
    decreases n,
{
    if n < 10 {
        seq![(n + 0x30) as char]
    } else {
        decimal_text(n / 10) + seq![((n % 10) + 0x30) as char]
    }
}

/// The decimal digit `d` as text.
fn digit_text(d: u32) -> (r: &'static str)
    requires
        d < 10,
    ensures
        r@ == seq![(d + 0x30) as char],
{
    match d {
        0 => {
            proof {
                reveal_strlit("0");
            }
            "0"
        },
        1 => {
            proof {
                reveal_strlit("1");
            }
            "1"
        },
        2 => {
            proof {
                reveal_strlit("2");
            }
            "2"
        },
        3 => {
            proof {
                reveal_strlit("3");
            }
            "3"
        },
        4 => {
            proof {
                reveal_strlit("4");
            }
            "4"
        },
        5 => {
            proof {
                reveal_strlit("5");
            }
            "5"
        },
        6 => {
            proof {
                reveal_strlit("6");
            }
            "6"
        },
        7 => {
            proof {
                reveal_strlit("7");
            }
            "7"
        },
        8 => {
            proof {
                reveal_strlit("8");
            }
            "8"
        },
        _ => {
            proof {
                reveal_strlit("9");
            }
            "9"
        },
    }
}

/// The decimal digits of `n`, without sign or leading zeros.
fn decimal_string(n: u32) -> (r: String)
    ensures
        r@ == decimal_text(n as nat),
    decreases n,
{
    if n < 10 {
        String::from_str(digit_text(n))
    } else {
        let mut s = decimal_string(n / 10);
        s.append(digit_text(n % 10));
        s
    }
}

impl SparseFormat {
    /// The major and minor version of the format.
    pub open spec fn version(&self) -> (u32, u32) {
        match self {
            SparseFormat::GnuOld => (0, 0),
            SparseFormat::Gnu0_0 => (0, 0),
            SparseFormat::Gnu0_1 => (0, 1),
            SparseFormat::Gnu1_0 => (1, 0),
            SparseFormat::GnuUnknownSparseFormat { major, minor } => (*major, *minor),
        }
    }

    /// The format that a major and a minor version, each perhaps missing, name.
    pub open spec fn from_gnu_version(major: Option<u32>, minor: Option<u32>) -> Option<SparseFormat> {
        match (major, minor) {
            (Some(0), Some(0)) | (Some(0), None) => Some(SparseFormat::Gnu0_0),
            (Some(0), Some(1)) | (None, Some(1)) => Some(SparseFormat::Gnu0_1),
            (Some(1), Some(0)) => Some(SparseFormat::Gnu1_0),
            (None, None) => None,
            (major, minor) => Some(
                SparseFormat::GnuUnknownSparseFormat {
                    major: match major {
                        Some(v) => v,
                        None => 0,
                    },
                    minor: match minor {
                        Some(v) => v,
                        None => 0,
                    },
                },
            ),
        }
    }

    /// The name of the format: `gnu_old`, or `gnu_` and the version.
    pub open spec fn version_text(&self) -> Seq<char> {
        match self {
            SparseFormat::GnuOld => "gnu_old"@,
            SparseFormat::Gnu0_0 => "gnu_0.0"@,
            SparseFormat::Gnu0_1 => "gnu_0.1"@,
            SparseFormat::Gnu1_0 => "gnu_1.0"@,
            SparseFormat::GnuUnknownSparseFormat { major, minor } => "gnu_"@ + decimal_text(
                *major as nat,
            ) + "."@ + decimal_text(*minor as nat),
        }
    }

    /// Returns the major and minor version of the GNU sparse format.
    pub fn get_major_minor(&self) -> (r: (u32, u32))
        ensures
            r == self.version(),
    {
        match self {
            SparseFormat::GnuOld => (0, 0),
            SparseFormat::Gnu0_0 => (0, 0),
            SparseFormat::Gnu0_1 => (0, 1),
            SparseFormat::Gnu1_0 => (1, 0),
            SparseFormat::GnuUnknownSparseFormat { major, minor } => (*major, *minor),
        }
    }

    /// Creates a new `SparseFormat` from the major and minor version.
    pub fn try_from_gnu_version(major: Option<u32>, minor: Option<u32>) -> (r: Option<Self>)
        ensures
            r == SparseFormat::from_gnu_version(major, minor),
    {
        match (major, minor) {
            (Some(0), Some(0)) | (Some(0), None) => Some(SparseFormat::Gnu0_0),
            (Some(0), Some(1)) | (None, Some(1)) => Some(SparseFormat::Gnu0_1),
            (Some(1), Some(0)) => Some(SparseFormat::Gnu1_0),
            (None, None) => None,
            (major, minor) => Some(
                SparseFormat::GnuUnknownSparseFormat {
                    major: match major {
                        Some(v) => v,
                        None => 0,
                    },
                    minor: match minor {
                        Some(v) => v,
                        None => 0,
                    },
                },
            ),
        }
    }

    /// The name of the format, as used in error messages.
    pub fn to_version_string(&self) -> (r: String)
        ensures
            r@ == self.version_text(),
    {
        match self {
            SparseFormat::GnuOld => String::from_str("gnu_old"),
            SparseFormat::Gnu0_0 => String::from_str("gnu_0.0"),
            SparseFormat::Gnu0_1 => String::from_str("gnu_0.1"),
            SparseFormat::Gnu1_0 => String::from_str("gnu_1.0"),
            SparseFormat::GnuUnknownSparseFormat { major, minor } => {
                let mut text = String::from_str("gnu_");
                let major_text = decimal_string(*major);
                text.append(major_text.as_str());
                text.append(".");
                let minor_text = decimal_string(*minor);
                text.append(minor_text.as_str());
                text
            },
        }
    }
}

/// Every format but the old one, and every unknown one but the major version zero, is named by
/// its own version.
pub proof fn law_sparse_format_version_round_trip(format: SparseFormat)
    requires
        format != SparseFormat::GnuOld,
        format matches SparseFormat::GnuUnknownSparseFormat { major, minor } ==> !(major == 0
            && minor == 0) && !(major == 0 && minor == 1) && !(major == 1 && minor == 0),
    ensures
        SparseFormat::from_gnu_version(Some(format.version().0), Some(format.version().1))
            == Some(format),
{
}

} // verus!
