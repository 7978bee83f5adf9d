//! The names that sockets go by.
use crate::error::{Error, ErrorView};
use std::path::Path;
use uds::UnixSocketAddr;
use vstd::prelude::*;
use vstd::utf8::{encode_utf8, valid_utf8};

verus! {

/// A file path of std.
#[verifier::external_type_specification]
#[verifier::external_body]
pub struct ExPath(std::path::Path);

/// An owned file path of std, which the conversions of a path speak of.
#[verifier::external_type_specification]
#[verifier::external_body]
pub struct ExPathBuf(std::path::PathBuf);

/// An I/O error of std.
#[verifier::external_type_specification]
#[verifier::external_body]
pub struct ExIoError(std::io::Error);

/// The address of a unix domain socket.
#[verifier::external_type_specification]
#[verifier::external_body]
pub struct ExUnixSocketAddr(uds::UnixSocketAddr);

/// The bytes that a path is made of, as `Path::as_os_str` holds them.
pub uninterp spec fn path_bytes(path: &Path) -> Seq<u8>;

/// The address that `UnixSocketAddr::from_path` makes of the bytes of a path.
pub uninterp spec fn path_address(path: Seq<u8>) -> UnixSocketAddr;

/// The address that `UnixSocketAddr::from_abstract` makes of a name.
pub uninterp spec fn abstract_address(name: Seq<u8>) -> UnixSocketAddr;

/// How many bytes of a name the address of a unix domain socket has room for.
pub const SUN_PATH_SIZE: usize = 108;

/// Whether a path made of these bytes can be the address of a socket: it is not empty, fits, and
/// holds no NUL.
pub open spec fn is_socket_path(path: Seq<u8>) -> bool {
    0 < path.len() <= SUN_PATH_SIZE && !path.contains(0)
}

/// Whether these bytes can be the abstract name of a socket: they fit behind the leading NUL that
/// marks an abstract name.
pub open spec fn is_abstract_name(name: Seq<u8>) -> bool {
    name.len() < SUN_PATH_SIZE
}

/// `Path::new` of std wraps a string slice as a path. The path is made of the bytes of the string.
#[verifier::external_body]
fn path_of_str(path: &str) -> (wrapped: &Path)
    ensures
        path_bytes(wrapped) == encode_utf8(path@),
{
    Path::new(path)
}

/// `Path::to_str` of std gives a path as a string slice. It fails on a path whose bytes are not UTF-8,
/// and on no other. The string is made of the bytes of the path.
#[verifier::external_body]
fn str_of_path(path: &Path) -> (text: Option<&str>)
    ensures
        text is Some <==> valid_utf8(path_bytes(path)),
        text matches Some(text) ==> encode_utf8(text@) == path_bytes(path),
{
    path.to_str()
}

/// `UnixSocketAddr::from_path` makes the address of a socket out of the bytes of a path. It fails on
/// a path that is empty, is longer than the `sun_path` of the platform (108 bytes on Linux and
/// Android) or holds a NUL, and on no other.
#[verifier::external_body]
fn address_of_path(path: &Path) -> (address: Result<UnixSocketAddr, std::io::Error>)
    ensures
        address is Ok <==> is_socket_path(path_bytes(path)),
        address matches Ok(address) ==> address == path_address(path_bytes(path)),
{
    UnixSocketAddr::from_path(path)
}

/// `UnixSocketAddr::from_abstract` makes the address of a socket out of an abstract name. On Linux and
/// Android it fails on a name that leaves no room for the leading NUL, and on no other.
#[verifier::external_body]
fn address_of_abstract(name: &str) -> (address: Result<UnixSocketAddr, std::io::Error>)
    ensures
        address is Ok <==> is_abstract_name(encode_utf8(name@)),
        address matches Ok(address) ==> address == abstract_address(encode_utf8(name@)),
{
    UnixSocketAddr::from_abstract(name)
}

/// A socket name: a file path or, on Linux, a plain string that is used as an abstract name.
#[derive(Copy, Clone)]
pub enum SocketName<'scope> {
    /// The path to the domain socket
    Path(&'scope Path),
    /// An abstract Linux socket
    Abstract(&'scope str),
}

impl<'scope> SocketName<'scope> {
    /// Create an abstract Linux socket name
    pub fn abstract_namespace(name: &'scope str) -> (socket_name: Self)
        ensures
            socket_name == SocketName::Abstract(name),
    {
        Self::Abstract(name)
    }

    /// Convenience function to create a [`Self::Path`] from a string
    pub fn path(path: &'scope str) -> (socket_name: Self)
        ensures
            socket_name matches SocketName::Path(wrapped) && path_bytes(wrapped) == encode_utf8(
                path@,
            ),
    {
        Self::Path(path_of_str(path))
    }

    /// The address that the name stands for, if it can be the name of a socket.
    pub open spec fn spec_address(self) -> Option<UnixSocketAddr> {
        match self {
            SocketName::Path(path) => if is_socket_path(path_bytes(path)) {
                Some(path_address(path_bytes(path)))
            } else {
                None
            },
            SocketName::Abstract(name) => if is_abstract_name(encode_utf8(name@)) {
                Some(abstract_address(encode_utf8(name@)))
            } else {
                None
            },
        }
    }

    /// The address that the name stands for.
    pub fn address(self) -> (address: Result<UnixSocketAddr, Error>)
        ensures
            match address {
                Ok(address) => self.spec_address() == Some(address),
                Err(err) => self.spec_address() is None && err@ == ErrorView::InvalidName,
            },
            self matches SocketName::Abstract(name) ==> (address is Ok <==> encode_utf8(name@).len()
                <= 107),
            self matches SocketName::Abstract(name) ==> (address matches Ok(address) ==> address
                == abstract_address(encode_utf8(name@))),
            self matches SocketName::Path(path) ==> (address is Ok <==> 0 < path_bytes(path).len()
                <= 108 && !path_bytes(path).contains(0)),
            self matches SocketName::Path(path) ==> (address matches Ok(address) ==> address
                == path_address(path_bytes(path))),
    {
        let address = match self {
            SocketName::Path(path) => address_of_path(path),
            SocketName::Abstract(name) => address_of_abstract(name),
        };
        match address {
            Ok(address) => Ok(address),
            Err(_) => Err(Error::InvalidName),
        }
    }
}

/// Whether a path made of these bytes can also be the name of a mach port: it is UTF-8 and holds no
/// NUL.
pub open spec fn is_port_name(path: Seq<u8>) -> bool {
    valid_utf8(path) && !path.contains(0)
}

/// The name of the mach port that goes with the socket at a path.
pub fn port_name<'scope>(path: &'scope Path) -> (name: Result<&'scope str, Error>)
    ensures
        match name {
            Ok(name) => is_port_name(path_bytes(path)) && encode_utf8(name@) == path_bytes(path),
            Err(err) => !is_port_name(path_bytes(path)) && err@ == ErrorView::InvalidPortName,
        },
        name is Ok <==> valid_utf8(path_bytes(path)) && forall|i: int|
            0 <= i < path_bytes(path).len() ==> path_bytes(path)[i] != 0,
{
    let name = match str_of_path(path) {
        Some(name) => name,
        None => return Err(Error::InvalidPortName),
    };
    let bytes = name.as_bytes();
    let mut i: usize = 0;
    while i < bytes.len()
        invariant
            i <= bytes@.len(),
            bytes@ == path_bytes(path),
            forall|j: int| 0 <= j < i ==> bytes@[j] != 0,
        decreases bytes@.len() - i,
    {
        if bytes[i] == 0 {
            assert(path_bytes(path).contains(bytes@[i as int]));
            return Err(Error::InvalidPortName);
        }
        i = i + 1;
    }
    Ok(name)
}

impl<'scope> vstd::std_specs::convert::FromSpecImpl<&'scope Path> for SocketName<'scope> {
    open spec fn obeys_from_spec() -> bool {
        true
    }

    open spec fn from_spec(path: &'scope Path) -> Self {
        SocketName::Path(path)
    }
}

impl<'scope> From<&'scope Path> for SocketName<'scope> {
    fn from(path: &'scope Path) -> (socket_name: Self) {
        Self::Path(path)
    }
}

/// An abstract name that fits behind the leading NUL stands for the abstract address of its bytes, and
/// no other abstract name stands for an address.
pub proof fn law_abstract_names_have_abstract_addresses(name: &str)
    ensures
        encode_utf8(name@).len() <= 107 ==> SocketName::Abstract(name).spec_address() == Some(
            abstract_address(encode_utf8(name@)),
        ),
        encode_utf8(name@).len() > 107 ==> SocketName::Abstract(name).spec_address() is None,
{
}

/// A path of up to 108 bytes, none of them NUL, stands for the address of the file that it names, and
/// no other path stands for an address.
pub proof fn law_paths_have_file_addresses(path: &Path)
    ensures
        0 < path_bytes(path).len() <= 108 && !path_bytes(path).contains(0) ==> SocketName::Path(
            path,
        ).spec_address() == Some(path_address(path_bytes(path))),
        path_bytes(path).len() == 0 || path_bytes(path).len() > 108 || path_bytes(path).contains(0)
            ==> SocketName::Path(path).spec_address() is None,
{
}

/// A path is a socket name as it is.
pub proof fn law_paths_are_socket_names(path: &Path)
    ensures
        <SocketName<'_> as vstd::std_specs::convert::FromSpec<&Path>>::from_spec(path)
            == SocketName::Path(path),
{
}

} // verus!
