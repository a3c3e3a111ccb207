//! Per-connection state apart from the socket itself: the serial counter,
//! the optional cipher with its mid-session downgrade rule, and the
//! connection id.  The socket I/O around it runs outside the library and
//! feeds decoded frames through `process_inbound` / `prepare_send`.

use vstd::prelude::*;
use vstd::string::StringExecFns;
use crate::cipher::AesEcbCipher;
use crate::cipher::EncryptionError;
use crate::cipher::SpecDecrypted;
use crate::cipher::ecb_encrypt;
use crate::cipher::pkcs7_pad;
use crate::cipher::pkcs7_pad_len;
use crate::cipher::spec_decrypt;
use crate::codec::FutuMessage;
use crate::serial::SerialCounter;

verus! {

#[derive(Debug)]
pub enum ConnectionError {
    Io(String),
    Send(String),
    Receive(String),
    Decryption(String),
    Disconnected,
}

impl EncryptionError {
    /// A short description of the error, used where the original error is
    /// folded into a connection-level one.
    pub fn message(&self) -> (r: &'static str)
        ensures
            self is InvalidCiphertext ==> r@ == "invalid ciphertext length"@,
            self is InvalidPadding ==> r@ == "invalid PKCS7 padding"@,
    {
        match self {
            EncryptionError::InvalidCiphertext => "invalid ciphertext length",
            EncryptionError::InvalidPadding => "invalid PKCS7 padding",
            EncryptionError::Rsa(_) => "RSA error",
        }
    }
}

/// Connection-local state: serial counter, encryption state and the
/// connection id the handshake assigned.
pub struct ConnectionState {
    pub serial: SerialCounter,
    pub cipher: Option<AesEcbCipher>,
    pub conn_id: u64,
}

impl ConnectionState {
    /// The installed session key, if a cipher is active.
    pub open spec fn cipher_key(self) -> Option<Seq<u8>> {
        match self.cipher {
            Some(c) => Some(c@),
            None => None,
        }
    }

    pub open spec fn wf(self) -> bool {
        &&& self.serial.wf()
        &&& match self.cipher {
            Some(c) => c.wf(),
            None => true,
        }
    }

    /// Fresh state: serials start at 1, no cipher, no connection id.
    pub fn new() -> (r: ConnectionState)
        ensures
            r.wf(),
            r.serial.next_value() == 1,
            r.cipher_key() is None,
            r.conn_id == 0,
    {
        ConnectionState { serial: SerialCounter::new(), cipher: None, conn_id: 0 }
    }

    /// Draw the next serial number (see `SerialCounter::next_serial`).
    pub fn next_serial(&mut self) -> (r: u32)
        requires
            old(self).wf(),
            old(self).serial.next_value() < u32::MAX,
        ensures
            final(self).wf(),
            r == old(self).serial.next_value(),
            r >= 1,
            final(self).serial.next_value() == r + 1,
            final(self).serial.produced() == old(self).serial.produced().push(r),
            forall|i: int|
                0 <= i < old(self).serial.produced().len() ==> #[trigger] old(
                    self,
                ).serial.produced()[i] < r,
            final(self).cipher == old(self).cipher,
            final(self).conn_id == old(self).conn_id,
    {
        self.serial.next_serial()
    }

    /// Install the AES session key (after the handshake).
    pub fn set_cipher(&mut self, key: &[u8; 16])
        requires
            old(self).wf(),
        ensures
            final(self).wf(),
            final(self).cipher_key() == Some(key@),
            final(self).serial == old(self).serial,
            final(self).conn_id == old(self).conn_id,
    {
        self.cipher = Some(AesEcbCipher::new(key));
    }

    /// Store the connection id the handshake assigned.
    pub fn set_conn_id(&mut self, id: u64)
        ensures
            final(self).conn_id == id,
            final(self).serial == old(self).serial,
            final(self).cipher == old(self).cipher,
    {
        self.conn_id = id;
    }

    pub fn conn_id(&self) -> (r: u64)
        ensures
            r == self.conn_id,
    {
        self.conn_id
    }

    /// The body bytes to put on the wire for `body`: encrypted when a
    /// cipher is active, the body itself otherwise.  The checksum is
    /// computed over this result by the codec, never over the plaintext.
    pub fn prepare_send(&self, body: &[u8]) -> (r: Vec<u8>)
        requires
            self.wf(),
            body@.len() + 16 <= usize::MAX,
        ensures
            match self.cipher_key() {
                Some(k) => {
                    &&& r@ == ecb_encrypt(k, pkcs7_pad(body@))
                    &&& r@.len() == body@.len() + pkcs7_pad_len(body@.len())
                    &&& r@.len() % 16 == 0
                    &&& spec_decrypt(k, r@) == SpecDecrypted::Plain(body@)
                },
                None => r@ == body@,
            },
    {
        match &self.cipher {
            Some(aes) => aes.encrypt(body),
            None => {
                let mut v: Vec<u8> = Vec::new();
                v.extend_from_slice(body);
                proof {
                    assert(v@ =~= body@);
                }
                v
            },
        }
    }

    /// Handle one decoded inbound frame.  With no cipher, or an empty
    /// body, the frame passes through.  With a cipher active, a
    /// block-aligned body is decrypted (a padding failure is an error for
    /// this frame only); a non-block-aligned body proves the gateway is
    /// sending plaintext, so the cipher is dropped for the rest of the
    /// session and the frame passes through unchanged.
    pub fn process_inbound(&mut self, msg: FutuMessage) -> (r: Result<
        FutuMessage,
        ConnectionError,
    >)
        requires
            old(self).wf(),
        ensures
            final(self).wf(),
            final(self).serial == old(self).serial,
            final(self).conn_id == old(self).conn_id,
            ({
                match old(self).cipher_key() {
                    None => final(self).cipher == old(self).cipher && (r matches Ok(m) && m@
                        == msg@),
                    Some(k) => {
                        if msg@.body.len() == 0 {
                            final(self).cipher == old(self).cipher && (r matches Ok(m) && m@
                                == msg@)
                        } else if msg@.body.len() % 16 == 0 {
                            &&& final(self).cipher == old(self).cipher
                            &&& match spec_decrypt(k, msg@.body) {
                                SpecDecrypted::Plain(p) => r matches Ok(m) && m@.proto_id
                                    == msg@.proto_id && m@.serial_no == msg@.serial_no && m@.body
                                    == p,
                                _ => r matches Err(e) && e is Decryption,
                            }
                        } else {
                            &&& final(self).cipher_key() is None
                            &&& r matches Ok(m) && m@ == msg@
                        }
                    },
                }
            }),
    {
        let has_cipher = self.cipher.is_some();
        if !has_cipher || msg.body.len() == 0 {
            return Ok(msg);
        }
        if msg.body.len() % 16 == 0 {
            let decrypted = match &self.cipher {
                Some(aes) => aes.decrypt(msg.body.as_slice()),
                None => {
                    return Ok(msg);  // unreachable: a cipher is present
                },
            };
            match decrypted {
                Ok(body) => Ok(FutuMessage { proto_id: msg.proto_id, serial_no: msg.serial_no, body }),
                Err(e) => {
                    let mut text = String::from_str("decryption error: ");
                    text.append(e.message());
                    Err(ConnectionError::Decryption(text))
                },
            }
        } else {
            // The gateway answered in plaintext although encryption was
            // negotiated: fall back silently for the rest of the session.
            self.cipher = None;
            Ok(msg)
        }
    }
}

} // verus!
