//! The records of the IDENTIFY exchange.
use vstd::prelude::*;

verus! {

/// What a client says of itself.
#[derive(Clone, Debug, Default)]
pub struct IdentifyRequest {
    pub client_id: String,
    pub hostname: String,
    pub feature_negotiation: bool,
    pub heartbeat_interval: Option<i64>,
    pub output_buffer_size: Option<i64>,
    pub output_buffer_timeout: Option<i64>,
    pub tls_v1: bool,
    pub snappy: bool,
    pub deflate: bool,
    pub deflate_level: Option<i32>,
    pub sample_rate: Option<i32>,
    pub user_agent: String,
    pub msg_timeout: Option<i64>,
}

/// What a broker answers.
#[derive(Clone, Debug)]
pub struct IdentifyResponse {
    pub max_rdy_count: u64,
    pub version: String,
    pub max_msg_timeout: i64,
    pub msg_timeout: i64,
    pub tls_v1: bool,
    pub deflate: bool,
    pub deflate_level: i32,
    pub max_deflate_level: i32,
    pub snappy: bool,
    pub sample_rate: i32,
    pub auth_required: bool,
    pub output_buffer_size: i64,
    pub output_buffer_timeout: i64,
}

/// `IdentifyResponse` as values.
#[verifier::ext_equal]
pub struct IdentifyResponseView {
    pub max_rdy_count: u64,
    pub version: Seq<char>,
    pub max_msg_timeout: i64,
    pub msg_timeout: i64,
    pub tls_v1: bool,
    pub deflate: bool,
    pub deflate_level: i32,
    pub max_deflate_level: i32,
    pub snappy: bool,
    pub sample_rate: i32,
    pub auth_required: bool,
    pub output_buffer_size: i64,
    pub output_buffer_timeout: i64,
}

impl View for IdentifyResponse {
    type V = IdentifyResponseView;

    open spec fn view(&self) -> IdentifyResponseView {
        IdentifyResponseView {
            max_rdy_count: self.max_rdy_count,
            version: self.version@,
            max_msg_timeout: self.max_msg_timeout,
            msg_timeout: self.msg_timeout,
            tls_v1: self.tls_v1,
            deflate: self.deflate,
            deflate_level: self.deflate_level,
            max_deflate_level: self.max_deflate_level,
            snappy: self.snappy,
            sample_rate: self.sample_rate,
            auth_required: self.auth_required,
            output_buffer_size: self.output_buffer_size,
            output_buffer_timeout: self.output_buffer_timeout,
        }
    }
}

} // verus!
