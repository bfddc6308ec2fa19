//! The configuration records handed to the program at start-up.
use vstd::prelude::*;
use vstd::string::*;
use crate::text::{join, starts_with};

verus! {

/// Settings of the synchronisation engine. They are read once and never change.
#[derive(Clone, Debug, PartialEq, Eq)]
pub struct FileSyncConfig {
    /// Endpoint of the object store.
    pub s3_path: String,
    /// Bucket that carries the traffic in both directions.
    pub bucket_name: String,
    /// Local directory whose children are shipped to the bucket.
    pub source_path: String,
    /// Local directory that receives what is fetched from the bucket.
    pub destination_path: String,
    /// Leading text of every key this instance uploads.
    pub s3_prefix: String,
    /// Leading text of every key this instance downloads.
    pub destination_prefix: String,
    /// Seconds to wait between two cycles of a loop.
    pub poll_interval_secs: u64,
}

/// Two prefixes overlap when some key begins with both of them, which is the
/// case exactly when one of them begins with the other.
pub open spec fn prefixes_overlap(a: Seq<char>, b: Seq<char>) -> bool {
    a.is_prefix_of(b) || b.is_prefix_of(a)
}

impl FileSyncConfig {
    /// The upload and download prefixes share no key, so an instance never
    /// fetches what it has itself uploaded.
    pub open spec fn prefixes_disjoint(&self) -> bool {
        !prefixes_overlap(self.s3_prefix@, self.destination_prefix@)
    }

    /// Checks that the upload and download prefixes share no key.
    pub fn has_disjoint_prefixes(&self) -> (disjoint: bool)
        ensures
            disjoint == self.prefixes_disjoint(),
    {
        !starts_with(self.destination_prefix.as_str(), self.s3_prefix.as_str())
            && !starts_with(self.s3_prefix.as_str(), self.destination_prefix.as_str())
    }
}

/// Settings of the auxiliary echo listener.
#[derive(Clone, Debug, PartialEq, Eq)]
pub struct ServerConfig {
    /// Whether the listener is started at all.
    pub enabled: bool,
    /// Host name or address to bind to.
    pub host: String,
    /// Port to bind to.
    pub port: u16,
}

/// The character of a decimal digit.
pub open spec fn digit_char(digit: nat) -> char {
    if digit == 0 {
        '0'
    } else if digit == 1 {
        '1'
    } else if digit == 2 {
        '2'
    } else if digit == 3 {
        '3'
    } else if digit == 4 {
        '4'
    } else if digit == 5 {
        '5'
    } else if digit == 6 {
        '6'
    } else if digit == 7 {
        '7'
    } else if digit == 8 {
        '8'
    } else {
        '9'
    }
}

/// A number in decimal, without leading zeros.
pub open spec fn decimal_text(number: nat) -> Seq<char>
    decreases number,
{
    if number < 10 {
        seq![digit_char(number)]
    } else {
        decimal_text(number / 10).push(digit_char(number % 10))
    }
}

/// The address the listener binds to: host, colon, port.
pub open spec fn address_text(host: Seq<char>, port: u16) -> Seq<char> {
    host + seq![':'] + decimal_text(port as nat)
}

/// One decimal digit as text.
fn digit_text(digit: u16) -> (text: &'static str)
    requires
        digit < 10,
    ensures
        text@ == seq![digit_char(digit as nat)],
{
    proof {
        reveal_strlit("0");
        reveal_strlit("1");
        reveal_strlit("2");
        reveal_strlit("3");
        reveal_strlit("4");
        reveal_strlit("5");
        reveal_strlit("6");
        reveal_strlit("7");
        reveal_strlit("8");
        reveal_strlit("9");
    }
    let text = if digit == 0 {
        "0"
    } else if digit == 1 {
        "1"
    } else if digit == 2 {
        "2"
    } else if digit == 3 {
        "3"
    } else if digit == 4 {
        "4"
    } else if digit == 5 {
        "5"
    } else if digit == 6 {
        "6"
    } else if digit == 7 {
        "7"
    } else if digit == 8 {
        "8"
    } else {
        "9"
    };
    assert(text@ =~= seq![digit_char(digit as nat)]);
    text
}

/// Writes a number in decimal.
pub fn decimal(number: u16) -> (text: String)
    ensures
        text@ == decimal_text(number as nat),
    decreases number,
{
    if number < 10 {
        String::from_str(digit_text(number))
    } else {
        let mut text = decimal(number / 10);
        text.append(digit_text(number % 10));
        assert(text@ =~= decimal_text(number as nat / 10).push(digit_char(number as nat % 10)));
        text
    }
}

impl ServerConfig {
    /// The address to listen on, or nothing where the listener is switched off.
    pub fn listen_address(&self) -> (address: Option<String>)
        ensures
            address is Some <==> self.enabled,
            address matches Some(a) ==> a@ == address_text(self.host@, self.port),
    {
        if !self.enabled {
            return None;
        }
        proof {
            reveal_strlit(":");
        }
        assert(":"@ =~= seq![':']);
        let mut address = join(self.host.as_str(), ":");
        let port = decimal(self.port);
        address.append(port.as_str());
        Some(address)
    }
}

} // verus!
