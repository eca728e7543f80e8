//! What the controller keeps in flash: the Wi-Fi network's name and password, each read into a
//! buffer of its largest size, and where a page of the key-value store lies in flash.

use vstd::prelude::*;
use vstd::string::StringSliceAdditionalSpecFns;
use vstd::utf8::valid_utf8;

use crate::trusted::str_from_utf8;

verus! {

/// The name of a Wi-Fi network as it was stored: at most 32 bytes.
pub struct Ssid {
    buffer: [u8; 32],
    length: usize,
}

impl Ssid {
    /// The key the name is stored under.
    pub const KEY: &'static str = "WIFI SSID";

    #[verifier::type_invariant]
    spec fn fits(self) -> bool {
        self.length <= 32
    }

    /// The bytes that were stored.
    pub closed spec fn stored(self) -> Seq<u8> {
        self.buffer@.subrange(0, self.length as int)
    }

    /// The name read into `buffer`, of which `bytes_read` were filled.
    pub fn create(buffer: [u8; 32], bytes_read: usize) -> (ssid: Self)
        requires
            bytes_read <= 32,
        ensures
            ssid.stored() == buffer@.subrange(0, bytes_read as int),
    {
        Ssid { buffer, length: bytes_read }
    }

    /// The name as text, or why it is not UTF-8.
    pub fn try_into_string(&self) -> (result: Result<&str, core::str::Utf8Error>)
        ensures
            result is Ok <==> valid_utf8(self.stored()),
            result matches Ok(text) ==> text.spec_bytes() == self.stored(),
    {
        proof {
            use_type_invariant(self);
        }
        str_from_utf8(vstd::slice::slice_subrange(self.buffer.as_slice(), 0, self.length))
    }
}

/// The password of a Wi-Fi network as it was stored: at most 64 bytes.
pub struct WifiPassword {
    buffer: [u8; 64],
    length: usize,
}

impl WifiPassword {
    /// The key the password is stored under.
    pub const KEY: &'static str = "WIFI PASSWORD";

    #[verifier::type_invariant]
    spec fn fits(self) -> bool {
        self.length <= 64
    }

    /// The bytes that were stored.
    pub closed spec fn stored(self) -> Seq<u8> {
        self.buffer@.subrange(0, self.length as int)
    }

    /// The password read into `buffer`, of which `bytes_read` were filled.
    pub fn create(buffer: [u8; 64], bytes_read: usize) -> (password: Self)
        requires
            bytes_read <= 64,
        ensures
            password.stored() == buffer@.subrange(0, bytes_read as int),
    {
        WifiPassword { buffer, length: bytes_read }
    }

    /// The password as text, or why it is not UTF-8.
    pub fn try_into_string(&self) -> (result: Result<&str, core::str::Utf8Error>)
        ensures
            result is Ok <==> valid_utf8(self.stored()),
            result matches Ok(text) ==> text.spec_bytes() == self.stored(),
    {
        proof {
            use_type_invariant(self);
        }
        str_from_utf8(vstd::slice::slice_subrange(self.buffer.as_slice(), 0, self.length))
    }
}

/// How to join the network.
pub enum JoinPlan<'a> {
    /// Without a password, the network is assumed to be open
    Open(&'a str),
    /// With the password
    Wpa2 { ssid: &'a str, password: &'a str },
}

/// Why the stored credentials cannot be used.
pub enum JoinError {
    MalformedSsid(core::str::Utf8Error),
    MalformedPassword(core::str::Utf8Error),
}

/// How to join the network with the stored name and, if there is one, password: both have to be
/// UTF-8, the name first.
pub fn join_plan<'a>(ssid: &'a Ssid, password: Option<&'a WifiPassword>) -> (plan: Result<JoinPlan<'a>, JoinError>)
    ensures
        !valid_utf8(ssid.stored()) ==> plan matches Err(JoinError::MalformedSsid(_)),
        valid_utf8(ssid.stored()) ==> match password {
            None => plan matches Ok(JoinPlan::Open(name)) && name.spec_bytes() == ssid.stored(),
            Some(password) => if valid_utf8(password.stored()) {
                plan matches Ok(JoinPlan::Wpa2 { ssid: name, password: secret })
                    && name.spec_bytes() == ssid.stored() && secret.spec_bytes() == password.stored()
            } else {
                plan matches Err(JoinError::MalformedPassword(_))
            },
        },
{
    let name = match ssid.try_into_string() {
        Ok(name) => name,
        Err(error) => return Err(JoinError::MalformedSsid(error)),
    };
    let password = match password {
        None => return Ok(JoinPlan::Open(name)),
        Some(password) => password,
    };
    match password.try_into_string() {
        Ok(secret) => Ok(JoinPlan::Wpa2 { ssid: name, password: secret }),
        Err(error) => Err(JoinError::MalformedPassword(error)),
    }
}

/// Where in flash a byte of the key-value store lies: the store's start, whole pages before it,
/// and the offset within its page.
pub fn page_address(start: usize, page_index: usize, page_size: usize, offset: usize) -> (address: usize)
    requires
        start + page_index * page_size + offset <= usize::MAX,
    ensures
        address == start + page_index * page_size + offset,
{
    proof {
        assert(0 <= page_index * page_size) by (nonlinear_arith);
    }
    start + page_index * page_size + offset
}

/// The flash a page of the key-value store takes, from its first byte up to the first byte after
/// it, as erasing it asks for.
pub fn page_range(start: usize, page_index: usize, page_size: usize) -> (range: (usize, usize))
    requires
        start + (page_index + 1) * page_size <= usize::MAX,
    ensures
        range.0 == start + page_index * page_size,
        range.1 == start + page_index * page_size + page_size,
{
    proof {
        assert((page_index + 1) * page_size == page_index * page_size + page_size) by (nonlinear_arith);
        assert(0 <= page_index * page_size) by (nonlinear_arith);
    }
    let first = start + page_index * page_size;
    (first, first + page_size)
}

} // verus!
