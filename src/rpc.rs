use vstd::prelude::*;
use vstd::string::*;
use base64::Engine;
use crate::text::{append_int, int_text};

verus! {

/// A raw response of a contract read: the returned bytes as text.
pub struct RpcResponse {
    pub data: String,
}

/// A read-only contract call pinned to a block.
pub struct QueryRequest {
    pub request_type: String,
    pub account_id: String,
    pub block_id: i64,
    pub method_name: String,
    pub args_base64: String,
}

/// The standard base64 encoding (with padding) of the UTF-8 bytes of `text`.
pub uninterp spec fn base64_of(text: Seq<char>) -> Seq<char>;

/// Relies on base64's `STANDARD` engine: `encode` is a function of the bytes alone.
#[verifier::external_body]
fn encode_base64(text: &str) -> (r: String)
    ensures
        r@ == base64_of(text@),
{
    base64::engine::general_purpose::STANDARD.encode(text.as_bytes())
}

/// Relies on `String::push`: the character is appended.
#[verifier::external_body]
pub(crate) fn push_char(s: &mut String, c: char)
    ensures
        final(s)@ == old(s)@.push(c),
{
    s.push(c)
}

/// The JSON arguments of a read by id: `{"<key>":<id>}`.
pub open spec fn id_args(key: Seq<char>, id: i32) -> Seq<char> {
    "{\""@ + key + "\":"@ + int_text(id as int) + "}"@
}

/// Write the JSON arguments of a read by id.
pub fn id_args_json(key: &str, id: i32) -> (r: String)
    ensures
        r@ == id_args(key@, id),
{
    let mut r = String::from_str("{\"");
    r.append(key);
    r.append("\":");
    append_int(&mut r, id as i64);
    r.append("}");
    r
}

/// The base64 of the JSON arguments of a read by id.
pub fn encoded_id_args(key: &str, id: i32) -> (r: String)
    ensures
        r@ == base64_of(id_args(key@, id)),
{
    let args = id_args_json(key, id);
    encode_base64(args.as_str())
}

/// The call of contract method `method` with the base64 of `{"<key>":<id>}`,
/// pinned to block `block_id`.
pub fn query_by_id(account_id: &str, method: &str, key: &str, id: i32, block_id: i64) -> (r:
    QueryRequest)
    ensures
        r.request_type@ == "call_function"@,
        r.account_id@ == account_id@,
        r.block_id == block_id,
        r.method_name@ == method@,
        r.args_base64@ == base64_of(id_args(key@, id)),
{
    QueryRequest {
        request_type: String::from_str("call_function"),
        account_id: String::from_str(account_id),
        block_id,
        method_name: String::from_str(method),
        args_base64: encoded_id_args(key, id),
    }
}

/// The read of proposal `proposal_id` as it stood at block `block_id`.
pub fn get_proposal_on_block(account_id: &str, proposal_id: i32, block_id: i64) -> (r: QueryRequest)
    ensures
        r.request_type@ == "call_function"@,
        r.account_id@ == account_id@,
        r.block_id == block_id,
        r.method_name@ == "get_proposal"@,
        r.args_base64@ == base64_of(id_args("proposal_id"@, proposal_id)),
{
    query_by_id(account_id, "get_proposal", "proposal_id", proposal_id, block_id)
}

/// The read of RFP `rfp_id` as it stood at block `block_id`.
pub fn get_rfp_on_block(account_id: &str, rfp_id: i32, block_id: i64) -> (r: QueryRequest)
    ensures
        r.request_type@ == "call_function"@,
        r.account_id@ == account_id@,
        r.block_id == block_id,
        r.method_name@ == "get_rfp"@,
        r.args_base64@ == base64_of(id_args("rfp_id"@, rfp_id)),
{
    query_by_id(account_id, "get_rfp", "rfp_id", rfp_id, block_id)
}

/// The text of a read's result, which arrives as one code per byte: each code
/// is taken modulo 256 as a character.
pub open spec fn codes_text(codes: Seq<i32>) -> Seq<char> {
    codes.map_values(|c: i32| (c as u8) as char)
}

/// Decode a read's result from its byte codes.
pub fn decode_query_result(codes: &Vec<i32>) -> (r: String)
    ensures
        r@ == codes_text(codes@),
{
    let mut r = String::new();
    let mut i: usize = 0;
    while i < codes.len()
        invariant
            i <= codes@.len(),
            r@ == codes_text(codes@.subrange(0, i as int)),
        decreases codes@.len() - i,
    {
        let c = codes[i] as u8 as char;
        push_char(&mut r, c);
        i = i + 1;
        assert(codes_text(codes@.subrange(0, i as int)) =~= codes_text(
            codes@.subrange(0, i - 1),
        ).push((codes@[i - 1] as u8) as char));
    }
    assert(codes@.subrange(0, codes@.len() as int) =~= codes@);
    r
}

} // verus!
