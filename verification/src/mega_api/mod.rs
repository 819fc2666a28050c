//! The MEGA API: the session, the request URL, and what the library makes
//! of the API's replies.

pub mod session;

use vstd::prelude::*;

use crate::core_types::FileMetadata;
use crate::crypto::attributes::attributes_of;
use crate::crypto::base64url::{base64_standard_decode, repad, standard_from_url};
use crate::crypto::{crypto_error_text, decrypt_file_attributes, url_base64_to_bin, CryptoError};
use crate::text::{chars_of, decimal, push_decimal, string_from_chars};

verus! {

/// Why a call to the MEGA API did not give what was asked.
#[derive(Debug, Clone, Copy, PartialEq, Eq, Structural)]
pub enum MegaApiError {
    /// The reply's HTTP status was outside the success range.
    HttpStatus(u16),
    /// The reply did not hold a download URL.
    NoDownloadUrl,
    /// The reply did not hold the file's details.
    NoFileInfo,
    /// The file's key or attributes could not be read.
    Crypto(CryptoError),
}

/// The message that goes with `e`.
pub open spec fn api_error_text(e: MegaApiError) -> Seq<char> {
    match e {
        MegaApiError::HttpStatus(status) => "Error en la respuesta de la API de MEGA: "@ + decimal(
            status as nat,
        ),
        MegaApiError::NoDownloadUrl => "No se pudo obtener la URL de descarga"@,
        MegaApiError::NoFileInfo => "No se pudo obtener la información del archivo"@,
        MegaApiError::Crypto(c) => crypto_error_text(c),
    }
}

impl MegaApiError {
    /// The message that goes with this error.
    pub fn message(&self) -> (result: String)
        ensures
            result@ == api_error_text(*self),
    {
        match self {
            MegaApiError::HttpStatus(status) => {
                let mut text = chars_of("Error en la respuesta de la API de MEGA: ");
                push_decimal(&mut text, *status as u64);
                string_from_chars(&text)
            },
            MegaApiError::NoDownloadUrl => string_from_chars(
                &chars_of("No se pudo obtener la URL de descarga"),
            ),
            MegaApiError::NoFileInfo => string_from_chars(
                &chars_of("No se pudo obtener la información del archivo"),
            ),
            MegaApiError::Crypto(c) => c.message(),
        }
    }
}

/// The MEGA API endpoint.
pub const API_URL: &'static str = "https://g.api.mega.co.nz";

/// The URL of an API request made with sequence number `seq_no`.
pub open spec fn request_url_text(seq_no: u64) -> Seq<char> {
    "https://g.api.mega.co.nz/cs?id="@ + decimal(seq_no as nat)
}

/// The URL of an API request made with sequence number `seq_no`:
/// `API_URL/cs?id=SEQ_NO`.
pub fn request_url(seq_no: u64) -> (result: String)
    ensures
        result@ == request_url_text(seq_no),
{
    let mut text = chars_of("https://g.api.mega.co.nz/cs?id=");
    push_decimal(&mut text, seq_no);
    string_from_chars(&text)
}

/// An HTTP status in the success range, 200 to 299.
pub open spec fn is_success(status: u16) -> bool {
    200 <= status < 300
}

/// The download URL in the API's reply with HTTP status `status`, whose
/// `g` field, when it is a string, is `g`.
pub fn download_url_from_reply(status: u16, g: Option<String>) -> (result: Result<String, MegaApiError>)
    ensures
        !is_success(status) ==> result == Err::<String, MegaApiError>(MegaApiError::HttpStatus(status)),
        is_success(status) ==> match g {
            Some(url) => result == Ok::<String, MegaApiError>(url),
            None => result == Err::<String, MegaApiError>(MegaApiError::NoDownloadUrl),
        },
{
    if status < 200 || status >= 300 {
        return Err(MegaApiError::HttpStatus(status));
    }
    match g {
        Some(url) => Ok(url),
        None => Err(MegaApiError::NoDownloadUrl),
    }
}

/// The attribute text of a file from the API's reply with HTTP status
/// `status`, whose first entry, if any, carries the encrypted attributes
/// `at`; they are decrypted with the URL-safe Base64 `file_key`. Fails on
/// an unsuccessful status, an empty reply, a key that is not Base64 or
/// decodes to fewer than 16 bytes, and attributes that do not decrypt.
pub fn attributes_from_reply(status: u16, at: Option<String>, file_key: &str) -> (result: Result<
    String,
    MegaApiError,
>)
    ensures
        !is_success(status) ==> result == Err::<String, MegaApiError>(MegaApiError::HttpStatus(status)),
        is_success(status) ==> match at {
            None => result == Err::<String, MegaApiError>(MegaApiError::NoFileInfo),
            Some(a) => match base64_standard_decode(repad(standard_from_url(file_key@))) {
                None => result == Err::<String, MegaApiError>(
                    MegaApiError::Crypto(CryptoError::Base64Decode),
                ),
                Some(k) => if k.len() < 16 {
                    result == Err::<String, MegaApiError>(MegaApiError::Crypto(CryptoError::KeyTooShort))
                } else {
                    match attributes_of(a@, k) {
                        Ok(text) => result matches Ok(s) && s@ == text,
                        Err(e) => result == Err::<String, MegaApiError>(MegaApiError::Crypto(e)),
                    }
                },
            },
        },
{
    if status < 200 || status >= 300 {
        return Err(MegaApiError::HttpStatus(status));
    }
    let a = match at {
        Some(a) => a,
        None => return Err(MegaApiError::NoFileInfo),
    };
    let key = match url_base64_to_bin(file_key) {
        Ok(k) => k,
        Err(e) => return Err(MegaApiError::Crypto(e)),
    };
    if key.len() < 16 {
        return Err(MegaApiError::Crypto(CryptoError::KeyTooShort));
    }
    match decrypt_file_attributes(a.as_str(), key.as_slice()) {
        Ok(text) => Ok(text),
        Err(e) => Err(MegaApiError::Crypto(e)),
    }
}

/// The metadata of a file from the name in its attributes, the size and
/// the key (empty when the reply carries none) in the API's reply.
pub fn file_metadata_from_reply(name: String, size: u64, key: Option<String>) -> (result: FileMetadata)
    ensures
        result.name == name,
        result.size == size,
        match key {
            Some(k) => result.key == k,
            None => result.key@ == Seq::<char>::empty(),
        },
{
    let key = match key {
        Some(k) => k,
        None => String::new(),
    };
    FileMetadata { name, size, key }
}

} // verus!
