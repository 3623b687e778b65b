//! Authentication and authorization.
//!
//! Anything that implements [`AuthProvider`] can decide who may use the
//! registry. Three providers are included: `bool` (deny all or allow all),
//! a [`PasswordMap`] of usernames to passwords, and a single master
//! password, `Secret<String>`, for which the username is ignored. All of
//! them only authenticate: whoever gets in may read and write everything.

use crate::basic::{basic_auth, basic_auth_response, utf8_text};
use crate::http::StatusCode;
use crate::location::{ImageLocation, LocationView};
use crate::secret::{conceal, concealed_text, secret_text};
use sec::Secret;
use std::sync::Arc;
use vstd::hash_map::StringHashMap;
use vstd::prelude::*;
use vstd::utf8::{decode_utf8, valid_utf8};

verus! {

/// A set of credentials supplied that has not been verified.
#[derive(Debug)]
pub enum Unverified {
    /// A set of username and password credentials.
    UsernameAndPassword {
        /// The given username.
        username: String,
        /// The provided password.
        password: Secret<String>,
    },
    /// No credentials were given.
    NoCredentials,
}

/// What an [`Unverified`] holds.
pub enum UnverifiedView {
    UsernameAndPassword { username: Seq<char>, password: Seq<char> },
    NoCredentials,
}

impl View for Unverified {
    type V = UnverifiedView;

    open spec fn view(&self) -> UnverifiedView {
        match self {
            Unverified::UsernameAndPassword { username, password } => {
                UnverifiedView::UsernameAndPassword {
                    username: username@,
                    password: secret_text(*password),
                }
            },
            Unverified::NoCredentials => UnverifiedView::NoCredentials,
        }
    }
}

/// The credentials that a request carries in its `Authorization` header:
/// none without the header, a username and a password where the header is
/// one of basic authentication with both in UTF-8. Any other header is a
/// bad request.
pub open spec fn credentials_of(authorization: Option<Seq<u8>>) -> Result<
    UnverifiedView,
    StatusCode,
> {
    match authorization {
        None => Ok(UnverifiedView::NoCredentials),
        Some(value) => match basic_auth(value) {
            Some((username, password)) => if valid_utf8(username) && valid_utf8(password) {
                Ok(
                    UnverifiedView::UsernameAndPassword {
                        username: decode_utf8(username),
                        password: decode_utf8(password),
                    },
                )
            } else {
                Err(StatusCode::BadRequest)
            },
            None => Err(StatusCode::BadRequest),
        },
    }
}

/// What reading the credentials gave, with the credentials replaced by
/// what they hold.
pub open spec fn credentials_read(read: Result<Unverified, StatusCode>) -> Result<
    UnverifiedView,
    StatusCode,
> {
    match read {
        Ok(unverified) => Ok(unverified@),
        Err(status) => Err(status),
    }
}

impl Unverified {
    /// Reads the credentials of a request from the value of its
    /// `Authorization` header, if it has one.
    pub fn from_request_parts(authorization: Option<&[u8]>) -> (read: Result<
        Unverified,
        StatusCode,
    >)
        ensures
            credentials_read(read) == credentials_of(
                match authorization {
                    Some(value) => Some(value@),
                    None => None,
                },
            ),
    {
        match authorization {
            Some(auth_header) => {
                let basic = match basic_auth_response(auth_header) {
                    Some(parsed) => parsed,
                    None => { return Err(StatusCode::BadRequest); },
                };
                let username = match utf8_text(basic.username) {
                    Some(text) => text,
                    None => { return Err(StatusCode::BadRequest); },
                };
                let password = match utf8_text(basic.password) {
                    Some(text) => text,
                    None => { return Err(StatusCode::BadRequest); },
                };
                Ok(Unverified::UsernameAndPassword { username, password: conceal(password) })
            },
            None => Ok(Unverified::NoCredentials),
        }
    }
}

/// Whom a provider has recognised.
#[derive(Debug, PartialEq, Eq)]
pub enum Identity {
    /// Someone the provider lets in without telling them apart.
    Anonymous,
    /// The user of this name.
    User(String),
}

/// What an [`Identity`] says.
pub enum IdentityView {
    Anonymous,
    User(Seq<char>),
}

impl View for Identity {
    type V = IdentityView;

    open spec fn view(&self) -> IdentityView {
        match self {
            Identity::Anonymous => IdentityView::Anonymous,
            Identity::User(name) => IdentityView::User(name@),
        }
    }
}

/// A set of credentials that has been validated.
#[derive(Debug, PartialEq, Eq)]
pub struct ValidCredentials(pub Identity);

impl View for ValidCredentials {
    type V = IdentityView;

    open spec fn view(&self) -> IdentityView {
        self.0@
    }
}

impl ValidCredentials {
    /// Creates a new set of valid credentials.
    pub fn new(inner: Identity) -> (creds: ValidCredentials)
        ensures
            creds@ == inner@,
    {
        ValidCredentials(inner)
    }
}

/// What a provider answered, with the credentials replaced by what they say.
pub open spec fn answer(creds: Option<ValidCredentials>) -> Option<IdentityView> {
    match creds {
        Some(valid) => Some(valid@),
        None => None,
    }
}

/// A set of permissions granted on a specific image location to a given set of credentials.
#[derive(Clone, Copy, Debug, PartialEq, Eq, Structural)]
pub enum Permissions {
    /// Access forbidden.
    NoAccess,
    /// Write only access.
    WriteOnly,
    /// Read access.
    Read,
    /// Read and write access.
    ReadWrite,
}

impl Permissions {
    /// Whether these permissions include read access.
    pub open spec fn allows_read(self) -> bool {
        self == Permissions::Read || self == Permissions::ReadWrite
    }

    /// Whether these permissions include write access.
    pub open spec fn allows_write(self) -> bool {
        self == Permissions::WriteOnly || self == Permissions::ReadWrite
    }

    /// The permissions as bits: 4 for reading, 2 for writing.
    pub open spec fn bits_of(self) -> u8 {
        match self {
            Permissions::NoAccess => 0,
            Permissions::WriteOnly => 2,
            Permissions::Read => 4,
            Permissions::ReadWrite => 6,
        }
    }

    /// The permissions as bits: 4 for reading, 2 for writing.
    pub fn bits(self) -> (bits: u8)
        ensures
            bits == self.bits_of(),
            self.allows_read() <==> bits >= 4,
            self.allows_write() <==> bits == 2 || bits == 6,
    {
        match self {
            Permissions::NoAccess => 0,
            Permissions::WriteOnly => 2,
            Permissions::Read => 4,
            Permissions::ReadWrite => 6,
        }
    }

    /// Returns whether or not permissions include read access.
    pub fn permit_read(self) -> (permitted: bool)
        ensures
            permitted == self.allows_read(),
    {
        match self {
            Permissions::NoAccess | Permissions::WriteOnly => false,
            Permissions::Read | Permissions::ReadWrite => true,
        }
    }

    /// Returns whether or not permissions include write access.
    pub fn permit_write(self) -> (permitted: bool)
        ensures
            permitted == self.allows_write(),
    {
        match self {
            Permissions::NoAccess | Permissions::Read => false,
            Permissions::WriteOnly | Permissions::ReadWrite => true,
        }
    }
}

/// Compares two byte strings without stopping at the first difference.
///
/// `constant_time_eq::constant_time_eq` answers `true` exactly when the two
/// slices have the same length and the same bytes.
pub assume_specification[ constant_time_eq::constant_time_eq ](a: &[u8], b: &[u8]) -> (equal: bool)
    ensures
        equal == (a@ == b@),
;

/// Compares two passwords in constant time.
fn same_password(given: &Secret<String>, correct: &Secret<String>) -> (same: bool)
    ensures
        same == (secret_text(*given) == secret_text(*correct)),
{
    let same = constant_time_eq::constant_time_eq(
        concealed_text(correct).as_bytes(),
        concealed_text(given).as_bytes(),
    );
    proof {
        vstd::utf8::encode_utf8_decode_utf8(secret_text(*given));
        vstd::utf8::encode_utf8_decode_utf8(secret_text(*correct));
    }
    same
}

/// An authentication and authorization provider.
///
/// What a provider answers is up to the provider: `accepts` and `grants`
/// say which answers it may give, and each implementation defines them.
pub trait AuthProvider {
    /// Whether `check_credentials` may give `answer` for `unverified`.
    spec fn accepts(&self, unverified: UnverifiedView, answer: Option<IdentityView>) -> bool;

    /// Whether `get_permissions` may answer `permissions` for `creds` at `image`.
    spec fn grants(&self, creds: IdentityView, image: LocationView, permissions: Permissions) -> bool;

    /// Checks whether the supplied unverified credentials are valid.
    ///
    /// Returns `None` if the credentials are not valid at all, malformed or
    /// similar. `Some` means that the login succeeded, and says nothing
    /// about what these credentials may access.
    fn check_credentials(&self, unverified: &Unverified) -> (creds: Option<ValidCredentials>)
        ensures
            self.accepts(unverified@, answer(creds)),
    ;

    /// Determine permissions for given credentials at image location.
    fn get_permissions(&self, creds: &ValidCredentials, image: &ImageLocation) -> (permissions:
        Permissions)
        ensures
            self.grants(creds@, image@, permissions),
    ;
}

/// Deny all (`false`) or allow all who name themselves (`true`).
impl AuthProvider for bool {
    open spec fn accepts(&self, unverified: UnverifiedView, answer: Option<IdentityView>) -> bool {
        answer == if *self && unverified is UsernameAndPassword {
            Some(IdentityView::Anonymous)
        } else {
            None
        }
    }

    open spec fn grants(&self, creds: IdentityView, image: LocationView, permissions: Permissions) -> bool {
        permissions == Permissions::ReadWrite
    }

    fn check_credentials(&self, unverified: &Unverified) -> (creds: Option<ValidCredentials>) {
        match unverified {
            Unverified::UsernameAndPassword { .. } => {
                if *self {
                    Some(ValidCredentials::new(Identity::Anonymous))
                } else {
                    None
                }
            },
            Unverified::NoCredentials => None,
        }
    }

    fn get_permissions(&self, _creds: &ValidCredentials, _image: &ImageLocation) -> (permissions:
        Permissions) {
        Permissions::ReadWrite
    }
}

/// A single master password; the username is ignored.
impl AuthProvider for Secret<String> {
    open spec fn accepts(&self, unverified: UnverifiedView, answer: Option<IdentityView>) -> bool {
        answer == match unverified {
            UnverifiedView::UsernameAndPassword { username, password } => if password
                == secret_text(*self) {
                Some(IdentityView::Anonymous)
            } else {
                None
            },
            UnverifiedView::NoCredentials => None,
        }
    }

    open spec fn grants(&self, creds: IdentityView, image: LocationView, permissions: Permissions) -> bool {
        permissions == Permissions::ReadWrite
    }

    fn check_credentials(&self, unverified: &Unverified) -> (creds: Option<ValidCredentials>) {
        match unverified {
            Unverified::UsernameAndPassword { username: _, password } => {
                if same_password(password, self) {
                    Some(ValidCredentials::new(Identity::Anonymous))
                } else {
                    None
                }
            },
            Unverified::NoCredentials => None,
        }
    }

    fn get_permissions(&self, _creds: &ValidCredentials, _image: &ImageLocation) -> (permissions:
        Permissions) {
        Permissions::ReadWrite
    }
}

/// A mapping of usernames to passwords.
pub struct PasswordMap {
    users: StringHashMap<Secret<String>>,
}

impl PasswordMap {
    /// The password of each known user.
    pub closed spec fn passwords(&self) -> Map<Seq<char>, Seq<char>> {
        Map::new(
            |name: Seq<char>| self.users@.contains_key(name),
            |name: Seq<char>| secret_text(self.users@[name]),
        )
    }

    /// A map without users.
    pub fn new() -> (map: PasswordMap)
        ensures
            map.passwords() == Map::<Seq<char>, Seq<char>>::empty(),
    {
        let map = PasswordMap { users: StringHashMap::new() };
        assert(map.passwords() =~= Map::<Seq<char>, Seq<char>>::empty());
        map
    }

    /// Sets the password of `username`, replacing an earlier one.
    pub fn insert(&mut self, username: String, password: Secret<String>)
        ensures
            final(self).passwords() == old(self).passwords().insert(
                username@,
                secret_text(password),
            ),
    {
        self.users.insert(username, password);
        assert(self.passwords() =~= old(self).passwords().insert(
            username@,
            secret_text(password),
        ));
    }
}

impl AuthProvider for PasswordMap {
    open spec fn accepts(&self, unverified: UnverifiedView, answer: Option<IdentityView>) -> bool {
        answer == match unverified {
            UnverifiedView::UsernameAndPassword { username, password } => if self.passwords().contains_key(
                username,
            ) && self.passwords()[username] == password {
                Some(IdentityView::User(username))
            } else {
                None
            },
            UnverifiedView::NoCredentials => None,
        }
    }

    open spec fn grants(&self, creds: IdentityView, image: LocationView, permissions: Permissions) -> bool {
        permissions == Permissions::ReadWrite
    }

    fn check_credentials(&self, unverified: &Unverified) -> (creds: Option<ValidCredentials>) {
        match unverified {
            Unverified::UsernameAndPassword {
                username: unverified_username,
                password: unverified_password,
            } => {
                if let Some(correct_password) = self.users.get(unverified_username.as_str()) {
                    if same_password(unverified_password, correct_password) {
                        return Some(
                            ValidCredentials::new(Identity::User(unverified_username.clone())),
                        );
                    }
                }
                None
            },
            Unverified::NoCredentials => None,
        }
    }

    fn get_permissions(&self, _creds: &ValidCredentials, _image: &ImageLocation) -> (permissions:
        Permissions) {
        Permissions::ReadWrite
    }
}

/// A boxed provider answers as the provider in the box; it grants full
/// access to whomever it let in.
impl<T: AuthProvider> AuthProvider for Box<T> {
    open spec fn accepts(&self, unverified: UnverifiedView, answer: Option<IdentityView>) -> bool {
        (**self).accepts(unverified, answer)
    }

    open spec fn grants(&self, creds: IdentityView, image: LocationView, permissions: Permissions) -> bool {
        permissions == Permissions::ReadWrite
    }

    fn check_credentials(&self, unverified: &Unverified) -> (creds: Option<ValidCredentials>) {
        (**self).check_credentials(unverified)
    }

    fn get_permissions(&self, _creds: &ValidCredentials, _image: &ImageLocation) -> (permissions:
        Permissions) {
        Permissions::ReadWrite
    }
}

/// A shared provider answers as the provider it shares; it grants full
/// access to whomever it let in.
impl<T: AuthProvider> AuthProvider for Arc<T> {
    open spec fn accepts(&self, unverified: UnverifiedView, answer: Option<IdentityView>) -> bool {
        (**self).accepts(unverified, answer)
    }

    open spec fn grants(&self, creds: IdentityView, image: LocationView, permissions: Permissions) -> bool {
        permissions == Permissions::ReadWrite
    }

    fn check_credentials(&self, unverified: &Unverified) -> (creds: Option<ValidCredentials>) {
        (**self).check_credentials(unverified)
    }

    fn get_permissions(&self, _creds: &ValidCredentials, _image: &ImageLocation) -> (permissions:
        Permissions) {
        Permissions::ReadWrite
    }
}

} // verus!
