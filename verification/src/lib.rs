//! Recovery of saved wireless-network credentials: a path query over parsed
//! profile documents, decoding of fixed-size wide-character name buffers,
//! the authentication-type policy, and the scan state machine that walks
//! natively owned resource lists and releases each exactly once.
pub mod creds;
pub mod scan;
pub mod tree;
