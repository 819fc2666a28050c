use megacore::mega_api::session::{id_from_draws, Session, ID_ALPHABET_LEN};
use megacore::mega_api::{attributes_from_reply, download_url_from_reply, file_metadata_from_reply, request_url, MegaApiError, API_URL};
use megacore::crypto::CryptoError;

#[test]
fn test_gen_id_length() {
    let length = 10;
    let id = Session::gen_id(length);
    assert_eq!(id.len(), length);
}

#[test]
fn test_gen_id_charset() {
    let length = 100;
    let id = Session::gen_id(length);
    let chars = "ABCDEFGHIJKLMNOPQRSTUVWXYZabcdefghijklmnopqrstuvwxyz0123456789";
    for c in id.chars() {
        assert!(chars.contains(c));
    }
}

#[test]
fn test_session_new_initializes_req_id() {
    let session = Session::new();
    assert_eq!(session.req_id.len(), 10);
}

#[test]
fn new_session_fields() {
    let session = Session::new();
    assert!(session.seq_no <= 0xffff_ffff);
    assert_eq!(session.account_version, -1);
    assert!(session.email.is_none() && session.sid.is_none());
}

#[test]
fn default_session_is_empty() {
    let session = Session::default();
    assert_eq!(session.seq_no, 0);
    assert_eq!(session.req_id, "");
    assert_eq!(session.account_version, 0);
}

#[test]
fn init_login_fetch() {
    let mut session = Session::default();
    assert!(session.init().is_ok());
    assert_eq!(session.req_id.len(), 10);
    assert!(session.login("me@example.com", "pw").is_ok());
    assert_eq!(session.email.as_deref(), Some("me@example.com"));
    assert!(session.fetch_nodes().is_ok());
}

#[test]
fn request_url_carries_sequence_number() {
    assert_eq!(request_url(0), format!("{}/cs?id=0", API_URL));
    assert_eq!(request_url(4294967295), "https://g.api.mega.co.nz/cs?id=4294967295");
}

#[test]
fn download_url_reply() {
    assert_eq!(download_url_from_reply(200, Some("https://x/y".to_string())), Ok("https://x/y".to_string()));
    assert_eq!(download_url_from_reply(200, None), Err(MegaApiError::NoDownloadUrl));
    assert_eq!(download_url_from_reply(404, Some("u".to_string())), Err(MegaApiError::HttpStatus(404)));
    assert_eq!(download_url_from_reply(199, None), Err(MegaApiError::HttpStatus(199)));
    assert_eq!(download_url_from_reply(299, Some("v".to_string())), Ok("v".to_string()));
}

#[test]
fn attributes_reply() {
    let key = "AAECAwQFBgcICQoLDA0ODxAREhMUFRYXGBkaGxwdHh-7nfiYHf3ZvAck163294oX";
    let at = "pYwltwx0hwfhQyMKBJyeIJqHayOitcwNl-LYdIs8NPg=".to_string();
    assert_eq!(attributes_from_reply(200, Some(at.clone()), key), Ok("{\"n\":\"report.pdf\"}".to_string()));
    assert_eq!(attributes_from_reply(500, Some(at.clone()), key), Err(MegaApiError::HttpStatus(500)));
    assert_eq!(attributes_from_reply(200, None, key), Err(MegaApiError::NoFileInfo));
    assert_eq!(attributes_from_reply(200, Some(at.clone()), "AAAA"), Err(MegaApiError::Crypto(CryptoError::KeyTooShort)));
    assert_eq!(attributes_from_reply(200, Some(at), "?"), Err(MegaApiError::Crypto(CryptoError::Base64Decode)));
}

#[test]
fn metadata_reply() {
    let m = file_metadata_from_reply("a.txt".to_string(), 12, None);
    assert_eq!((m.name.as_str(), m.size, m.key.as_str()), ("a.txt", 12, ""));
    let m = file_metadata_from_reply("b".to_string(), 1, Some("k".to_string()));
    assert_eq!(m.key, "k");
}

#[test]
fn id_from_draws_spells_alphabet_positions() {
    assert_eq!(id_from_draws(&vec![0, 25, 26, 51, 52, 61]), "AZaz09");
    assert_eq!(id_from_draws(&vec![]), "");
    assert_eq!(ID_ALPHABET_LEN, 62);
}

#[test]
fn session_from_draws_fixes_every_field() {
    let session = Session::session_from_draws(0x1234_5678_9abc_def0, &vec![7, 4, 6, 0, 57, 58, 59, 60, 61, 33]);
    assert_eq!(session.seq_no, 0x9abc_def0);
    assert_eq!(session.req_id, "HEGA56789h");
    assert_eq!(session.account_version, -1);
    assert!(session.sid.is_none() && session.email.is_none() && session.salt.is_none());
}

#[test]
fn api_error_messages() {
    assert_eq!(MegaApiError::NoDownloadUrl.message(), "No se pudo obtener la URL de descarga");
    assert_eq!(MegaApiError::NoFileInfo.message(), "No se pudo obtener la información del archivo");
    assert_eq!(MegaApiError::HttpStatus(404).message(), "Error en la respuesta de la API de MEGA: 404");
    assert_eq!(MegaApiError::Crypto(CryptoError::KeyTooShort).message(), "La clave del archivo es demasiado corta");
}
