//! Proof generation with ZisK: the command lines that start the prover, where
//! its inputs, results, logs and proofs lie, how its status lines are read,
//! and how a finished run is judged.

use base64::Engine;
use vstd::prelude::*;
use vstd::string::*;

use crate::path::spec_join;
use crate::protocol::input_name;
use crate::text::{
    chars_of, decimal, is_digit, lemma_decimal, lemma_parse_decimal, spec_parse_u64, str_eq, string_of, u128_to_decimal, u64_to_decimal,
};

verus! {

/// Folder that holds one output folder per proved block.
pub const OUTPUT_FOLDER: &'static str = "output";

/// Folder that holds the guest program.
pub const PROGRAM_FOLDER: &'static str = "elf";

/// Folder that holds the logs of failed proofs.
pub const LOG_FOLDER: &'static str = "log";

/// Folder where received input files are saved when none is configured.
pub const DEFAULT_INPUTS_FOLDER: &'static str = "upload_inputs";

/// Seconds after which waiting for the prover server to become idle gives up.
pub const PROVE_WAIT_TIMEOUT_SECS: u64 = 300;

/// What `cargo-zisk` reports when a proof is done.
pub struct ProofResult {
    /// Cycles the guest program ran.
    pub cycles: u64,
    /// Identifier of the verifier of the proof.
    pub id: String,
    /// Proving time in milliseconds (whole seconds reported, times 1000).
    pub time: u128,
}

/// How the prover is run: with or without distributed proving (through
/// `mpirun`), and with or without the ZisK prover server.
#[derive(PartialEq, Eq, Structural, Debug, Clone, Copy)]
pub struct ProveMode {
    pub no_distributed: bool,
    pub no_server: bool,
}

/// A new string holding `a` followed by `b`.
fn cat(a: String, b: &str) -> (s: String)
    ensures
        s@ == a@ + b@,
{
    let mut a = a;
    a.append(b);
    a
}

/// `output/{n}`.
pub open spec fn spec_output_folder(block_number: nat) -> Seq<char> {
    "output/"@ + decimal(block_number)
}

/// The output folder of a block's proof.
pub fn proof_output_folder(block_number: u64) -> (s: String)
    ensures
        s@ == spec_output_folder(block_number as nat),
{
    let d = u64_to_decimal(block_number);
    cat(String::from_str("output/"), d.as_str())
}

/// `{folder}/{n}.bin`.
pub open spec fn spec_input_file(folder: Seq<char>, block_number: nat) -> Seq<char> {
    folder + "/"@ + input_name(block_number)
}

/// The input file of a block inside `input_folder`.
pub fn proof_input_file(input_folder: &str, block_number: u64) -> (s: String)
    ensures
        s@ == spec_input_file(input_folder@, block_number as nat),
{
    let d = u64_to_decimal(block_number);
    let s = cat(String::from_str(input_folder), "/");
    let s = cat(s, d.as_str());
    let s = cat(s, ".bin");
    assert(s@ =~= spec_input_file(input_folder@, block_number as nat));
    s
}

/// `elf/{elf_file}`.
pub open spec fn spec_elf_path(elf_file: Seq<char>) -> Seq<char> {
    "elf/"@ + elf_file
}

/// The guest program inside the program folder.
pub fn elf_path(elf_file: &str) -> (s: String)
    ensures
        s@ == spec_elf_path(elf_file@),
{
    cat(String::from_str("elf/"), elf_file)
}

/// The file where the prover writes its result: `result.json` in the output
/// folder, prefixed with the block number when the prover server wrote it.
pub open spec fn spec_result_file(block_number: nat, no_server: bool) -> Seq<char> {
    if no_server {
        spec_output_folder(block_number) + "/result.json"@
    } else {
        spec_output_folder(block_number) + "/"@ + decimal(block_number) + "-result.json"@
    }
}

/// Where the result of a block's proof is read from.
pub fn proof_result_file(block_number: u64, no_server: bool) -> (s: String)
    ensures
        s@ == spec_result_file(block_number as nat, no_server),
{
    let out = proof_output_folder(block_number);
    if no_server {
        cat(out, "/result.json")
    } else {
        let d = u64_to_decimal(block_number);
        let s = cat(out, "/");
        let s = cat(s, d.as_str());
        let s = cat(s, "-result.json");
        assert(s@ =~= spec_result_file(block_number as nat, no_server));
        s
    }
}

/// `log/{n}.log`.
pub open spec fn spec_log_file(block_number: nat) -> Seq<char> {
    "log/"@ + decimal(block_number) + ".log"@
}

/// Where the prover's output is saved when a block's proof fails.
pub fn proof_log_file(block_number: u64) -> (s: String)
    ensures
        s@ == spec_log_file(block_number as nat),
{
    let d = u64_to_decimal(block_number);
    let s = cat(String::from_str("log/"), d.as_str());
    cat(s, ".log")
}

/// The compressed final proof in the output folder, prefixed with the block
/// number when the prover server wrote it.
pub open spec fn spec_compressed_proof_file(block_number: nat, no_server: bool) -> Seq<char> {
    if no_server {
        spec_output_folder(block_number) + "/vadcop_final_proof.compressed.bin"@
    } else {
        spec_output_folder(block_number) + "/"@ + decimal(block_number)
            + "-vadcop_final_proof.compressed.bin"@
    }
}

/// Where the compressed proof of a block is read from.
pub fn compressed_proof_file(block_number: u64, no_server: bool) -> (s: String)
    ensures
        s@ == spec_compressed_proof_file(block_number as nat, no_server),
{
    let out = proof_output_folder(block_number);
    if no_server {
        cat(out, "/vadcop_final_proof.compressed.bin")
    } else {
        let d = u64_to_decimal(block_number);
        let s = cat(out, "/");
        let s = cat(s, d.as_str());
        let s = cat(s, "-vadcop_final_proof.compressed.bin");
        assert(s@ =~= spec_compressed_proof_file(block_number as nat, no_server));
        s
    }
}

/// The shell command that proves a block.
pub open spec fn spec_prove_command(
    mode: ProveMode,
    elf: Seq<char>,
    input: Seq<char>,
    output: Seq<char>,
    block: Seq<char>,
    processes: Seq<char>,
    threads: Seq<char>,
    params: Seq<char>,
) -> Seq<char> {
    let local = "cargo-zisk prove -e "@ + elf + " -i "@ + input + " -o "@ + output + " -a -u "@
        + params;
    let served = "cargo-zisk prove-client prove -i "@ + input + " -a --port 6100 -p "@ + block
        + " -o "@ + output + " "@ + params;
    if mode.no_distributed {
        if mode.no_server {
            local
        } else {
            served
        }
    } else {
        if mode.no_server {
            "mpirun --allow-run-as-root --bind-to none -np "@ + processes + " -x OMP_NUM_THREADS="@
                + threads + " -x RAYON_NUM_THREADS="@ + threads + " "@ + local
        } else {
            "mpirun --allow-run-as-root --bind-to none -np "@ + processes + " "@ + served
        }
    }
}

/// The shell command that proves `block_number` from `input_file` into
/// `output_folder` with the guest program `elf`, in the given mode; `processes`
/// and `threads` configure distributed proving, and `params` is appended.
pub fn prove_command(
    mode: ProveMode,
    elf: &str,
    input_file: &str,
    output_folder: &str,
    block_number: u64,
    processes: &str,
    threads: &str,
    params: &str,
) -> (s: String)
    ensures
        s@ == spec_prove_command(
            mode,
            elf@,
            input_file@,
            output_folder@,
            decimal(block_number as nat),
            processes@,
            threads@,
            params@,
        ),
{
    let block = u64_to_decimal(block_number);
    let core = if mode.no_server {
        let s = cat(String::from_str("cargo-zisk prove -e "), elf);
        let s = cat(s, " -i ");
        let s = cat(s, input_file);
        let s = cat(s, " -o ");
        let s = cat(s, output_folder);
        let s = cat(s, " -a -u ");
        cat(s, params)
    } else {
        let s = cat(String::from_str("cargo-zisk prove-client prove -i "), input_file);
        let s = cat(s, " -a --port 6100 -p ");
        let s = cat(s, block.as_str());
        let s = cat(s, " -o ");
        let s = cat(s, output_folder);
        let s = cat(s, " ");
        cat(s, params)
    };
    let r = if mode.no_distributed {
        core
    } else if mode.no_server {
        let s = cat(String::from_str("mpirun --allow-run-as-root --bind-to none -np "), processes);
        let s = cat(s, " -x OMP_NUM_THREADS=");
        let s = cat(s, threads);
        let s = cat(s, " -x RAYON_NUM_THREADS=");
        let s = cat(s, threads);
        let s = cat(s, " ");
        cat(s, core.as_str())
    } else {
        let s = cat(String::from_str("mpirun --allow-run-as-root --bind-to none -np "), processes);
        let s = cat(s, " ");
        cat(s, core.as_str())
    };
    assert(r@ =~= spec_prove_command(
        mode,
        elf@,
        input_file@,
        output_folder@,
        decimal(block_number as nat),
        processes@,
        threads@,
        params@,
    ));
    r
}


/// True when `i` is the position of the first `{` of `line`.
pub open spec fn is_first_brace(line: Seq<char>, i: int) -> bool {
    &&& 0 <= i < line.len()
    &&& line[i] == '{'
    &&& forall|j: int| 0 <= j < i ==> #[trigger] line[j] != '{'
}

/// The part of a prover output line from its first `{` on, where the prover
/// writes its JSON status.
pub open spec fn spec_json_suffix(line: Seq<char>) -> Option<Seq<char>> {
    if exists|i: int| is_first_brace(line, i) {
        Some(line.skip(choose|i: int| is_first_brace(line, i)))
    } else {
        None
    }
}

/// The JSON part of a prover output line.
pub fn json_suffix(line: &str) -> (r: Option<String>)
    ensures
        match r {
            Some(s) => spec_json_suffix(line@) == Some(s@),
            None => spec_json_suffix(line@) is None,
        },
{
    let cs = chars_of(line);
    let mut i: usize = 0;
    while i < cs.len() && cs[i] != '{'
        invariant
            i <= cs@.len(),
            cs@ == line@,
            forall|j: int| 0 <= j < i ==> #[trigger] cs@[j] != '{',
        decreases cs@.len() - i,
    {
        i = i + 1;
    }
    if i == cs.len() {
        assert(!exists|k: int| is_first_brace(line@, k));
        return None;
    }
    assert(is_first_brace(line@, i as int));
    proof {
        let k = choose|k: int| is_first_brace(line@, k);
        if k < i {
            assert(cs@[k] != '{');
        } else if i < k {
            assert(line@[i as int] != '{');
        }
    }
    let mut rest: Vec<char> = Vec::new();
    let mut j: usize = i;
    while j < cs.len()
        invariant
            i <= j <= cs@.len(),
            rest@ == cs@.subrange(i as int, j as int),
        decreases cs@.len() - j,
    {
        rest.push(cs[j]);
        j = j + 1;
        assert(rest@ =~= cs@.subrange(i as int, j as int));
    }
    assert(rest@ =~= line@.skip(i as int));
    Some(string_of(rest.as_slice()))
}

/// A member of a JSON object, as far as the prover's status is concerned.
pub enum JsonScalar<S> {
    /// A number that is a `u64`.
    U64(u64),
    /// A string.
    Str(S),
    /// Any other value.
    Other,
}

impl<S: View> View for JsonScalar<S> {
    type V = JsonScalar<S::V>;

    open spec fn view(&self) -> JsonScalar<S::V> {
        match self {
            JsonScalar::U64(n) => JsonScalar::U64(*n),
            JsonScalar::Str(s) => JsonScalar::Str(s@),
            JsonScalar::Other => JsonScalar::Other,
        }
    }
}

/// The view of a looked-up member.
pub open spec fn member_view(m: Option<JsonScalar<String>>) -> Option<JsonScalar<Seq<char>>> {
    match m {
        Some(v) => Some(v@),
        None => None,
    }
}

/// What `serde_json` finds under `key` when it parses `text` as a JSON value:
/// nothing when `text` is not JSON or has no such member.
pub uninterp spec fn json_member(text: Seq<char>, key: Seq<char>) -> Option<JsonScalar<Seq<char>>>;

/// Parses `text` with `serde_json::from_str` into a `serde_json::Value` and
/// looks up `key` with `Value::get`; a number is taken through
/// `Number::as_u64`. The contract ties the answer to `text` and `key` through
/// `json_member` and says nothing more of JSON.
#[verifier::external_body]
fn json_member_of(text: &str, key: &str) -> (r: Option<JsonScalar<String>>)
    ensures
        member_view(r) == json_member(text@, key@),
{
    match serde_json::from_str::<serde_json::Value>(text) {
        Ok(v) => match v.get(key) {
            Some(serde_json::Value::Number(n)) => match n.as_u64() {
                Some(u) => Some(JsonScalar::U64(u)),
                None => Some(JsonScalar::Other),
            },
            Some(serde_json::Value::String(s)) => Some(JsonScalar::Str(s.clone())),
            Some(_) => Some(JsonScalar::Other),
            None => None,
        },
        Err(_) => None,
    }
}

/// Whether a member is the number `v`.
pub fn member_is_u64(m: &Option<JsonScalar<String>>, v: u64) -> (r: bool)
    ensures
        r == (member_view(*m) == Some(JsonScalar::<Seq<char>>::U64(v))),
{
    match m {
        Some(JsonScalar::U64(n)) => *n == v,
        _ => false,
    }
}

/// Whether a member is the string `s`.
pub fn member_is_str(m: &Option<JsonScalar<String>>, s: &str) -> (r: bool)
    ensures
        r == (member_view(*m) == Some(JsonScalar::<Seq<char>>::Str(s@))),
{
    match m {
        Some(JsonScalar::Str(t)) => str_eq(t.as_str(), s),
        _ => false,
    }
}

/// The prover accepted the proof request: node 0, result `in_progress`, code 0.
pub open spec fn spec_accepted(
    node: Option<JsonScalar<Seq<char>>>,
    result: Option<JsonScalar<Seq<char>>>,
    code: Option<JsonScalar<Seq<char>>>,
) -> bool {
    &&& node == Some(JsonScalar::<Seq<char>>::U64(0))
    &&& result == Some(JsonScalar::<Seq<char>>::Str("in_progress"@))
    &&& code == Some(JsonScalar::<Seq<char>>::U64(0))
}

/// The prover server is idle: node 0, result `ok`, status `idle`.
pub open spec fn spec_idle(
    node: Option<JsonScalar<Seq<char>>>,
    result: Option<JsonScalar<Seq<char>>>,
    status: Option<JsonScalar<Seq<char>>>,
) -> bool {
    &&& node == Some(JsonScalar::<Seq<char>>::U64(0))
    &&& result == Some(JsonScalar::<Seq<char>>::Str("ok"@))
    &&& status == Some(JsonScalar::<Seq<char>>::Str("idle"@))
}

/// Whether the members `node`, `result` and `code` of a status say that the
/// proof request was accepted.
pub fn reports_accepted(
    node: &Option<JsonScalar<String>>,
    result: &Option<JsonScalar<String>>,
    code: &Option<JsonScalar<String>>,
) -> (r: bool)
    ensures
        r == spec_accepted(member_view(*node), member_view(*result), member_view(*code)),
{
    member_is_u64(node, 0) && member_is_str(result, "in_progress") && member_is_u64(code, 0)
}

/// Whether the members `node`, `result` and `status` of a status say that the
/// prover server is idle.
pub fn reports_idle(
    node: &Option<JsonScalar<String>>,
    result: &Option<JsonScalar<String>>,
    status: &Option<JsonScalar<String>>,
) -> (r: bool)
    ensures
        r == spec_idle(member_view(*node), member_view(*result), member_view(*status)),
{
    member_is_u64(node, 0) && member_is_str(result, "ok") && member_is_str(status, "idle")
}

/// A prover output line accepts the proof request when its JSON part does.
pub open spec fn spec_line_accepts(line: Seq<char>) -> bool {
    match spec_json_suffix(line) {
        Some(j) => spec_accepted(
            json_member(j, "node"@),
            json_member(j, "result"@),
            json_member(j, "code"@),
        ),
        None => false,
    }
}

/// A prover status line says idle when its JSON part does.
pub open spec fn spec_line_idle(line: Seq<char>) -> bool {
    match spec_json_suffix(line) {
        Some(j) => spec_idle(
            json_member(j, "node"@),
            json_member(j, "result"@),
            json_member(j, "status"@),
        ),
        None => false,
    }
}

/// Whether a line printed while starting a proof reports that the request was accepted.
pub fn line_accepts_proof(line: &str) -> (r: bool)
    ensures
        r == spec_line_accepts(line@),
{
    match json_suffix(line) {
        None => false,
        Some(j) => {
            let node = json_member_of(j.as_str(), "node");
            let result = json_member_of(j.as_str(), "result");
            let code = json_member_of(j.as_str(), "code");
            reports_accepted(&node, &result, &code)
        },
    }
}

/// Whether a line printed by the prover server's status command reports it idle.
pub fn line_reports_idle(line: &str) -> (r: bool)
    ensures
        r == spec_line_idle(line@),
{
    match json_suffix(line) {
        None => false,
        Some(j) => {
            let node = json_member_of(j.as_str(), "node");
            let result = json_member_of(j.as_str(), "result");
            let status = json_member_of(j.as_str(), "status");
            reports_idle(&node, &result, &status)
        },
    }
}

/// With the prover server, a proof whose start was not reported accepted has failed.
pub open spec fn spec_start_rejected(no_server: bool, proving: bool) -> bool {
    !no_server && !proving
}

/// A proof run succeeded when the local prover exited successfully, or when
/// the prover server accepted it.
pub open spec fn spec_generation_succeeded(no_server: bool, exit_success: bool, proving: bool) -> bool {
    (no_server && exit_success) || proving
}

/// Whether a proof run failed to start.
pub fn start_rejected(no_server: bool, proving: bool) -> (r: bool)
    ensures
        r == spec_start_rejected(no_server, proving),
{
    !no_server && !proving
}

/// Whether a finished proof run succeeded.
pub fn generation_succeeded(no_server: bool, exit_success: bool, proving: bool) -> (r: bool)
    ensures
        r == spec_generation_succeeded(no_server, exit_success, proving),
{
    (no_server && exit_success) || proving
}

/// With the prover server, a run that was not rejected at its start succeeds,
/// whatever the exit status of the client command; without it, the start is
/// never rejected.
pub proof fn law_run_judgement(proving: bool, exit_success: bool)
    ensures
        !spec_start_rejected(false, proving) ==> spec_generation_succeeded(false, exit_success, proving),
        !spec_start_rejected(true, proving),
{
}

/// Whether waiting for the prover server has taken too long.
pub fn prove_wait_expired(elapsed_secs: u64) -> (r: bool)
    ensures
        r == (elapsed_secs > PROVE_WAIT_TIMEOUT_SECS),
{
    elapsed_secs > PROVE_WAIT_TIMEOUT_SECS
}

/// The character of the standard Base64 alphabet for `v < 64`.
pub open spec fn base64_char(v: nat) -> char {
    if v < 26 {
        ((65 + v) as u32) as char
    } else if v < 52 {
        ((97 + v - 26) as u32) as char
    } else if v < 62 {
        ((48 + v - 52) as u32) as char
    } else if v == 62 {
        '+'
    } else {
        '/'
    }
}

/// Standard Base64 with `=` padding (RFC 4648): every three bytes become four
/// characters of six bits each; a final one or two bytes are padded.
pub open spec fn spec_base64(b: Seq<u8>) -> Seq<char>
    decreases b.len(),
{
    if b.len() == 0 {
        Seq::empty()
    } else if b.len() == 1 {
        seq![base64_char(b[0] as nat / 4), base64_char((b[0] as nat % 4) * 16), '=', '=']
    } else if b.len() == 2 {
        seq![
            base64_char(b[0] as nat / 4),
            base64_char((b[0] as nat % 4) * 16 + b[1] as nat / 16),
            base64_char((b[1] as nat % 16) * 4),
            '=',
        ]
    } else {
        seq![
            base64_char(b[0] as nat / 4),
            base64_char((b[0] as nat % 4) * 16 + b[1] as nat / 16),
            base64_char((b[1] as nat % 16) * 4 + b[2] as nat / 64),
            base64_char(b[2] as nat % 64),
        ] + spec_base64(b.skip(3))
    }
}

/// The value of a character of the standard Base64 alphabet (`A`..`Z`,
/// `a`..`z`, `0`..`9`, `+`, `/`).
pub open spec fn base64_value(c: char) -> nat {
    if 'A' <= c <= 'Z' {
        (c as u32 - 65) as nat
    } else if 'a' <= c <= 'z' {
        (c as u32 - 71) as nat
    } else if '0' <= c <= '9' {
        (c as u32 + 4) as nat
    } else if c == '+' {
        62
    } else {
        63
    }
}

/// Decoding of padded standard Base64 text: each group of four characters
/// gives three bytes, or fewer where it ends in `=`, which ends the text.
pub open spec fn spec_base64_decode(s: Seq<char>) -> Seq<u8>
    decreases s.len(),
{
    if s.len() < 4 {
        Seq::empty()
    } else {
        let v0 = base64_value(s[0]);
        let v1 = base64_value(s[1]);
        let v2 = base64_value(s[2]);
        let v3 = base64_value(s[3]);
        let b0 = (v0 * 4 + v1 / 16) as u8;
        let b1 = ((v1 % 16) * 16 + v2 / 4) as u8;
        let b2 = ((v2 % 4) * 64 + v3) as u8;
        if s[2] == '=' {
            seq![b0]
        } else if s[3] == '=' {
            seq![b0, b1]
        } else {
            seq![b0, b1, b2] + spec_base64_decode(s.skip(4))
        }
    }
}

proof fn lemma_base64_char(v: nat)
    requires
        v < 64,
    ensures
        base64_value(base64_char(v)) == v,
        base64_char(v) != '=',
{
    if v < 26 {
        assert(((65 + v) as u32) as char as u32 == 65 + v);
    } else if v < 52 {
        assert(((97 + v - 26) as u32) as char as u32 == 97 + v - 26);
    } else if v < 62 {
        assert(((48 + v - 52) as u32) as char as u32 == 48 + v - 52);
    }
}

proof fn lemma_base64_group(x: nat, y: nat, z: nat)
    requires
        x < 256,
        y < 256,
        z < 256,
    ensures
        x / 4 < 64,
        (x % 4) * 16 + y / 16 < 64,
        (y % 16) * 4 + z / 64 < 64,
        z % 64 < 64,
        (x % 4) * 16 < 64,
        (y % 16) * 4 < 64,
        (x / 4) * 4 + ((x % 4) * 16 + y / 16) / 16 == x,
        (((x % 4) * 16 + y / 16) % 16) * 16 + ((y % 16) * 4 + z / 64) / 4 == y,
        (((y % 16) * 4 + z / 64) % 4) * 64 + z % 64 == z,
        (x / 4) * 4 + ((x % 4) * 16) / 16 == x,
        (((x % 4) * 16 + y / 16) % 16) * 16 + ((y % 16) * 4) / 4 == y,
{
    assert((x / 4) * 4 + ((x % 4) * 16 + y / 16) / 16 == x) by (nonlinear_arith)
        requires
            x < 256,
            y < 256,
    ;
    assert((((x % 4) * 16 + y / 16) % 16) * 16 + ((y % 16) * 4 + z / 64) / 4 == y)
        by (nonlinear_arith)
        requires
            x < 256,
            y < 256,
            z < 256,
    ;
    assert((((y % 16) * 4 + z / 64) % 4) * 64 + z % 64 == z) by (nonlinear_arith)
        requires
            y < 256,
            z < 256,
    ;
    assert((x / 4) * 4 + ((x % 4) * 16) / 16 == x) by (nonlinear_arith)
        requires
            x < 256,
    ;
    assert((((x % 4) * 16 + y / 16) % 16) * 16 + ((y % 16) * 4) / 4 == y) by (nonlinear_arith)
        requires
            x < 256,
            y < 256,
    ;
}

/// Padded standard Base64 has four characters for every three bytes or part
/// of three, and decodes back to the bytes it encodes: the proof is sent whole.
pub proof fn law_base64_round_trip(b: Seq<u8>)
    ensures
        spec_base64(b).len() == 4 * ((b.len() + 2) / 3),
        spec_base64_decode(spec_base64(b)) == b,
    decreases b.len(),
{
    if b.len() == 0 {
    } else {
        let x = b[0] as nat;
        let y = if b.len() > 1 { b[1] as nat } else { 0 };
        let z = if b.len() > 2 { b[2] as nat } else { 0 };
        lemma_base64_group(x, y, z);
        lemma_base64_char(x / 4);
        lemma_base64_char((x % 4) * 16 + y / 16);
        lemma_base64_char((y % 16) * 4 + z / 64);
        lemma_base64_char(z % 64);
        lemma_base64_char((x % 4) * 16);
        lemma_base64_char((y % 16) * 4);
        let e = spec_base64(b);
        if b.len() == 1 {
            assert(spec_base64_decode(e) =~= b);
        } else if b.len() == 2 {
            assert(spec_base64_decode(e) =~= b);
        } else {
            law_base64_round_trip(b.skip(3));
            let rest = spec_base64(b.skip(3));
            assert(e.skip(4) =~= rest);
            assert(spec_base64_decode(e) =~= seq![b[0], b[1], b[2]] + spec_base64_decode(rest));
            assert(b =~= seq![b[0], b[1], b[2]] + b.skip(3));
        }
    }
}

/// `base64::engine::general_purpose::STANDARD.encode`: standard alphabet with
/// padding. It panics when the length of the encoding overflows `usize`, which
/// `requires` leaves out.
#[verifier::external_body]
fn base64_encode(bytes: &[u8]) -> (s: String)
    requires
        (bytes@.len() + 2) / 3 * 4 <= usize::MAX,
    ensures
        s@ == spec_base64(bytes@),
{
    base64::engine::general_purpose::STANDARD.encode(bytes)
}

/// The compressed proof as sent to EthProofs: standard Base64 with padding.
pub fn encode_proof_b64(proof: &[u8]) -> (s: String)
    requires
        (proof@.len() + 2) / 3 * 4 <= usize::MAX,
    ensures
        s@ == spec_base64(proof@),
{
    base64_encode(proof)
}

/// A prover output line accepts a proof request exactly when it holds JSON whose
/// `node` is the number 0, whose `result` is the string `in_progress` and whose
/// `code` is the number 0; a status line says idle exactly when its JSON has
/// `node` 0, `result` `ok` and `status` `idle`. Any other node, result, code
/// or status, or a line without JSON, says neither.
pub proof fn law_status_lines(line: Seq<char>)
    ensures
        spec_line_accepts(line) <==> (spec_json_suffix(line) matches Some(j) && json_member(
            j,
            "node"@,
        ) == Some(JsonScalar::<Seq<char>>::U64(0)) && json_member(j, "result"@) == Some(
            JsonScalar::<Seq<char>>::Str("in_progress"@),
        ) && json_member(j, "code"@) == Some(JsonScalar::<Seq<char>>::U64(0))),
        spec_line_idle(line) <==> (spec_json_suffix(line) matches Some(j) && json_member(
            j,
            "node"@,
        ) == Some(JsonScalar::<Seq<char>>::U64(0)) && json_member(j, "result"@) == Some(
            JsonScalar::<Seq<char>>::Str("ok"@),
        ) && json_member(j, "status"@) == Some(JsonScalar::<Seq<char>>::Str("idle"@))),
        (spec_json_suffix(line) matches Some(j) && json_member(j, "node"@) matches Some(
            JsonScalar::U64(n),
        ) && n != 0) ==> !spec_line_idle(line) && !spec_line_accepts(line),
{
}

/// With the prover server, the word after `-p` in the prove command is the
/// whole decimal number of the block, which reads back as that block: the
/// server's result and proof files are named after the block proved. The
/// command ends in the output folder and the extra parameters.
pub proof fn law_served_command_names_block(
    mode: ProveMode,
    elf: Seq<char>,
    input: Seq<char>,
    output: Seq<char>,
    block_number: u64,
    processes: Seq<char>,
    threads: Seq<char>,
    params: Seq<char>,
)
    requires
        !mode.no_server,
    ensures
        exists|pre: Seq<char>|
            spec_prove_command(
                mode,
                elf,
                input,
                output,
                decimal(block_number as nat),
                processes,
                threads,
                params,
            ) == pre + " -p "@ + decimal(block_number as nat) + " -o "@ + output + " "@ + params,
        spec_parse_u64(decimal(block_number as nat)) == Some(block_number),
{
    reveal_strlit(" -p ");
    reveal_strlit(" -a --port 6100 -p ");
    reveal_strlit(" -a --port 6100");
    lemma_parse_decimal(block_number);
    let d = decimal(block_number as nat);
    let cmd = spec_prove_command(mode, elf, input, output, d, processes, threads, params);
    let tail = " -p "@ + d + " -o "@ + output + " "@ + params;
    let served_pre = "cargo-zisk prove-client prove -i "@ + input + " -a --port 6100"@;
    assert("cargo-zisk prove-client prove -i "@ + input + " -a --port 6100 -p "@ + d + " -o "@
        + output + " "@ + params =~= served_pre + tail);
    if mode.no_distributed {
        assert(cmd =~= served_pre + " -p "@ + d + " -o "@ + output + " "@ + params);
    } else {
        let pre = "mpirun --allow-run-as-root --bind-to none -np "@ + processes + " "@ + served_pre;
        assert(cmd =~= pre + " -p "@ + d + " -o "@ + output + " "@ + params);
    }
}

/// Where a block's files lie, for every block and folder: its input is
/// `{folder}/{n}.bin`, its output folder `output/{n}`, its result
/// `output/{n}/result.json` from the local prover and `output/{n}/{n}-result.json`
/// from the prover server, its compressed proof likewise
/// `vadcop_final_proof.compressed.bin` with or without the `{n}-` prefix, and
/// the log of a failed run `log/{n}.log`.
pub proof fn law_file_layout(folder: Seq<char>, n: nat)
    ensures
        spec_input_file(folder, n) == folder + "/"@ + decimal(n) + ".bin"@,
        spec_output_folder(n) == "output/"@ + decimal(n),
        spec_result_file(n, true) == "output/"@ + decimal(n) + "/result.json"@,
        spec_result_file(n, false) == "output/"@ + decimal(n) + "/"@ + decimal(n)
            + "-result.json"@,
        spec_compressed_proof_file(n, true) == "output/"@ + decimal(n)
            + "/vadcop_final_proof.compressed.bin"@,
        spec_compressed_proof_file(n, false) == "output/"@ + decimal(n) + "/"@ + decimal(n)
            + "-vadcop_final_proof.compressed.bin"@,
        spec_log_file(n) == "log/"@ + decimal(n) + ".log"@,
{
    assert(spec_input_file(folder, n) =~= folder + "/"@ + decimal(n) + ".bin"@);
}

/// The shape of the prove command in every mode: the local prover is run as
/// `cargo-zisk prove -e {elf} -i {input} -o {output} -a -u {params}` and the
/// prover server's client as `cargo-zisk prove-client prove -i {input} -a --port
/// 6100 -p {block} -o {output} {params}`; with distributed proving either is
/// run under `mpirun --allow-run-as-root --bind-to none -np {processes}`, and
/// the local prover also gets `{threads}` for OpenMP and Rayon.
pub proof fn law_prove_command_shape(
    mode: ProveMode,
    elf: Seq<char>,
    input: Seq<char>,
    output: Seq<char>,
    block: Seq<char>,
    processes: Seq<char>,
    threads: Seq<char>,
    params: Seq<char>,
)
    ensures
        ({
            let cmd = spec_prove_command(mode, elf, input, output, block, processes, threads, params);
            let local = "cargo-zisk prove -e "@ + elf + " -i "@ + input + " -o "@ + output
                + " -a -u "@ + params;
            let served = "cargo-zisk prove-client prove -i "@ + input + " -a --port 6100 -p "@
                + block + " -o "@ + output + " "@ + params;
            let mpi = "mpirun --allow-run-as-root --bind-to none -np "@ + processes;
            &&& (mode.no_distributed && mode.no_server) ==> cmd == local
            &&& (mode.no_distributed && !mode.no_server) ==> cmd == served
            &&& (!mode.no_distributed && mode.no_server) ==> cmd == mpi + " -x OMP_NUM_THREADS="@
                + threads + " -x RAYON_NUM_THREADS="@ + threads + " "@ + local
            &&& (!mode.no_distributed && !mode.no_server) ==> cmd == mpi + " "@ + served
        }),
{
}

/// `Proof submitted for block number {n}, cycles: {c}, proving_time: {s}s`,
/// with the proving time in whole seconds.
pub open spec fn spec_submitted_message(block_number: nat, cycles: nat, time_ms: nat) -> Seq<char> {
    "Proof submitted for block number "@ + decimal(block_number) + ", cycles: "@ + decimal(cycles)
        + ", proving_time: "@ + decimal(time_ms / 1000) + "s"@
}

/// The notice sent when a block's proof has been submitted.
pub fn submitted_message(block_number: u64, cycles: u64, time_ms: u128) -> (s: String)
    ensures
        s@ == spec_submitted_message(block_number as nat, cycles as nat, time_ms as nat),
{
    let b = u64_to_decimal(block_number);
    let c = u64_to_decimal(cycles);
    let t = u128_to_decimal(time_ms / 1000);
    let s = cat(String::from_str("Proof submitted for block number "), b.as_str());
    let s = cat(s, ", cycles: ");
    let s = cat(s, c.as_str());
    let s = cat(s, ", proving_time: ");
    let s = cat(s, t.as_str());
    let s = cat(s, "s");
    assert(s@ =~= spec_submitted_message(block_number as nat, cycles as nat, time_ms as nat));
    s
}


/// The prover reads a block's input from the path where the client saved it,
/// as long as the inputs folder is named without a trailing `/`.
pub proof fn law_input_file_is_saved_path(folder: Seq<char>, n: nat)
    requires
        folder.len() > 0,
        folder.last() != '/',
    ensures
        spec_input_file(folder, n) == spec_join(folder, input_name(n)),
{
    reveal_strlit("/");
    reveal_strlit(".bin");
    lemma_decimal(n);
    let d = decimal(n);
    assert(input_name(n)[0] == d[0]);
    assert(is_digit(d[0]));
    assert(spec_input_file(folder, n) =~= folder + seq!['/'] + input_name(n));
}

/// The result and the proof that the client reads after a run lie inside the
/// block's output folder, which it removes afterwards.
pub proof fn law_proof_files_in_output_folder(n: nat, no_server: bool)
    ensures
        spec_result_file(n, no_server).take(spec_output_folder(n).len() + 1int)
            == spec_output_folder(n) + seq!['/'],
        spec_compressed_proof_file(n, no_server).take(spec_output_folder(n).len() + 1int)
            == spec_output_folder(n) + seq!['/'],
{
    reveal_strlit("/");
    reveal_strlit("/result.json");
    reveal_strlit("/vadcop_final_proof.compressed.bin");
    let o = spec_output_folder(n);
    assert(spec_result_file(n, no_server).take(o.len() + 1int) =~= o + seq!['/']);
    assert(spec_compressed_proof_file(n, no_server).take(o.len() + 1int) =~= o + seq!['/']);
}

} // verus!
