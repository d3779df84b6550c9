use vstd::prelude::*;
use vstd::string::{StringExecFns, StrSliceExecFns};

use std::io::Cursor;

use crate::status::Status;

verus! {

/// A user profile: the payload of a user entity's records.
#[derive(Clone, Debug, PartialEq, Eq)]
pub struct User {
    /// The full name of the user.
    pub name: String,
    /// A shorter version of the user's name, often used for display.
    pub nickname: String,
    /// A brief biography.
    pub bio: String,
    /// An optional serialized image with the user's picture.
    pub picture: Option<Vec<u8>>,
    /// The type of user, either 'advocate' or 'creator'.
    pub user_type: String,
    /// The skills associated with the user.
    pub skills: Vec<String>,
    /// The user's email address.
    pub email: String,
    /// An optional phone number.
    pub phone: Option<String>,
    /// The time zone in which the user resides.
    pub time_zone: String,
    /// The location where the user is based.
    pub location: String,
}

/// An organization profile: the payload of an organization entity's records.
#[derive(Clone, Debug, PartialEq, Eq)]
pub struct Organization {
    pub name: String,
    pub description: String,
    /// An optional serialized image with the organization's logo.
    pub logo: Option<Vec<u8>>,
    pub email: String,
    pub urls: Vec<String>,
    pub location: String,
}


/// The outcome of validating an entity payload at the boundary.
#[derive(Clone, Debug, PartialEq, Eq)]
pub enum Verdict {
    Valid,
    Invalid(String),
}

/// Whether a string is a well-formed email address.  Stands for what
/// `email_address::EmailAddress::is_valid` accepts; the result depends on
/// the characters alone.
pub uninterp spec fn is_valid_email_of(s: Seq<char>) -> bool;

/// Whether a byte string, its format read from the builtin signature
/// table, decodes as an image.  Stands for what `image::guess_format` and
/// `image::ImageReader::decode` accept; the result depends on the bytes
/// alone.
pub uninterp spec fn decodes_as_image(bytes: Seq<u8>) -> bool;

/// Relies on email_address::EmailAddress::is_valid: whether the string
/// parses as an email address, a function of the characters alone.
#[verifier::external_body]
fn email_is_valid(address: &str) -> (r: bool)
    ensures
        r == is_valid_email_of(address@),
{
    email_address::EmailAddress::is_valid(address)
}

/// Relies on image::guess_format, which reads only the builtin
/// magic-bytes table, and on image::ImageReader::decode over that builtin
/// format, which dispatches on it directly: both are functions of the
/// bytes alone.
#[verifier::external_body]
pub fn is_image(bytes: &Vec<u8>) -> (r: bool)
    ensures
        r == decodes_as_image(bytes@),
{
    let format = match image::guess_format(bytes.as_slice()) {
        Ok(format) => format,
        Err(_) => return false,
    };
    image::ImageReader::with_format(Cursor::new(bytes.as_slice()), format).decode().is_ok()
}

/// Validate a user profile at the boundary: the name must not be empty,
/// the user type must be 'advocate' or 'creator', the picture, when
/// given, must decode as an image, and the email address must be
/// well-formed.  The verdict names the first field that fails.
pub fn validate_user(user: &User) -> (r: Verdict)
    ensures
        ({
            let ok_name = user.name@.len() != 0;
            let ok_type = user.user_type@ == "advocate"@ || user.user_type@ == "creator"@;
            let ok_picture = match user.picture {
                Some(p) => decodes_as_image(p@),
                None => true,
            };
            let ok_email = is_valid_email_of(user.email@);
            &&& (r is Valid <==> ok_name && ok_type && ok_picture && ok_email)
            &&& (!ok_name ==> (r matches Verdict::Invalid(m) && m@ == "User name cannot be empty"@))
            &&& (ok_name && !ok_type ==> (r matches Verdict::Invalid(m) && m@
                == "User Type must be 'advocate' or 'creator'."@))
            &&& (ok_name && ok_type && !ok_picture ==> (r matches Verdict::Invalid(m) && m@
                == "User picture must be a valid image"@))
            &&& (ok_name && ok_type && ok_picture && !ok_email ==> (r matches Verdict::Invalid(
                m,
            ) && m@ == "Email is not valid"@))
        }),
{
    if user.name.as_str().unicode_len() == 0 {
        return Verdict::Invalid(String::from_str("User name cannot be empty"));
    }
    if !(user.user_type == String::from_str("advocate") || user.user_type == String::from_str(
        "creator",
    )) {
        return Verdict::Invalid(
            String::from_str("User Type must be 'advocate' or 'creator'."),
        );
    }
    match &user.picture {
        Some(p) => {
            if !is_image(p) {
                return Verdict::Invalid(String::from_str("User picture must be a valid image"));
            }
        },
        None => {},
    }
    if !email_is_valid(user.email.as_str()) {
        return Verdict::Invalid(String::from_str("Email is not valid"));
    }
    Verdict::Valid
}

/// Validate an organization profile at the boundary: the logo, when
/// given, must decode as an image, and the email address must be
/// well-formed.
pub fn validate_organization(organization: &Organization) -> (r: Verdict)
    ensures
        ({
            let ok_logo = match organization.logo {
                Some(p) => decodes_as_image(p@),
                None => true,
            };
            let ok_email = is_valid_email_of(organization.email@);
            &&& (r is Valid <==> ok_logo && ok_email)
            &&& (!ok_logo ==> (r matches Verdict::Invalid(m) && m@
                == "Organization logo must be a valid image"@))
            &&& (ok_logo && !ok_email ==> (r matches Verdict::Invalid(m) && m@
                == "Email is not valid"@))
        }),
{
    match &organization.logo {
        Some(p) => {
            if !is_image(p) {
                return Verdict::Invalid(
                    String::from_str("Organization logo must be a valid image"),
                );
            }
        },
        None => {},
    }
    if !email_is_valid(organization.email.as_str()) {
        return Verdict::Invalid(String::from_str("Email is not valid"));
    }
    Verdict::Valid
}

/// Validate a stored status value.  The status is a tagged value,
/// validated at creation, so every stored status reads back; the check
/// cannot fail.
pub fn validate_status(status: &Status) -> (r: Verdict)
    ensures
        r is Valid,
{
    let _ = status;
    Verdict::Valid
}

} // verus!
