//! Leighton–Micali signatures (RFC 8554): LM-OTS hash chains, the LMS Merkle
//! tree, sign/verify, and the fixed-layout wire codec, for the 32-byte
//! (SHA-256) and 24-byte (truncated SHA-256) digest widths.

pub mod bytes;
pub mod codec;
pub mod coefs;
pub mod hashes;
pub mod lms;
pub mod merkle;
pub mod ots;
pub mod params;
pub mod rng;
pub mod types;

pub use codec::parse_public_contents;
pub use codec::parse_signature_contents;
pub use codec::serialize_public_key;
pub use codec::serialize_signature;
pub use coefs::checksum;
pub use coefs::coefficient;
pub use lms::create_lms_tree;
pub use lms::lms_sign_message;
pub use lms::verify_lms_signature;
pub use ots::verify_ots_signature;
pub use params::get_lmots_parameters;
pub use params::get_lms_parameters;
pub use params::lmots_code;
pub use params::lms_code;
pub use params::lookup_lmots_algorithm_type;
pub use params::lookup_lms_algorithm_type;
pub use params::LmotsAlgorithmType;
pub use params::LmotsParameter;
pub use params::LmsAlgorithmType;
pub use params::LmsError;
pub use types::HashValue;
pub use types::LmotsSignature;
pub use types::LmsPublicKey;
pub use types::LmsSignature;
pub use types::LmsTree;
pub use bytes::u16str;
pub use bytes::u32str;
pub use bytes::u8str;
