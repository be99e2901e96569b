use base64::Engine;
use ethproofs_client::path::join_path;
use ethproofs_client::protocol::input_file_name;
use ethproofs_client::prove::{
    compressed_proof_file, elf_path, encode_proof_b64, generation_succeeded, json_suffix,
    line_accepts_proof, line_reports_idle, proof_input_file, proof_log_file,
    proof_output_folder, proof_result_file, prove_command, prove_wait_expired, start_rejected,
    submitted_message, ProveMode,
};

#[test]
fn proof_paths() {
    assert_eq!(proof_output_folder(21), "output/21");
    assert_eq!(proof_input_file("upload_inputs", 21), "upload_inputs/21.bin");
    assert_eq!(elf_path("guest.elf"), "elf/guest.elf");
    assert_eq!(proof_result_file(21, true), "output/21/result.json");
    assert_eq!(proof_result_file(21, false), "output/21/21-result.json");
    assert_eq!(proof_log_file(21), "log/21.log");
    assert_eq!(
        compressed_proof_file(21, true),
        "output/21/vadcop_final_proof.compressed.bin"
    );
    assert_eq!(
        compressed_proof_file(21, false),
        "output/21/21-vadcop_final_proof.compressed.bin"
    );
}

fn command(no_distributed: bool, no_server: bool) -> String {
    prove_command(
        ProveMode { no_distributed, no_server },
        "elf/g.elf",
        "in/5.bin",
        "output/5",
        5,
        "4",
        "16",
        "-x",
    )
}

#[test]
fn prove_commands_for_each_mode() {
    assert_eq!(
        command(true, true),
        "cargo-zisk prove -e elf/g.elf -i in/5.bin -o output/5 -a -u -x"
    );
    assert_eq!(
        command(true, false),
        "cargo-zisk prove-client prove -i in/5.bin -a --port 6100 -p 5 -o output/5 -x"
    );
    assert_eq!(
        command(false, true),
        "mpirun --allow-run-as-root --bind-to none -np 4 -x OMP_NUM_THREADS=16 -x RAYON_NUM_THREADS=16 cargo-zisk prove -e elf/g.elf -i in/5.bin -o output/5 -a -u -x"
    );
    assert_eq!(
        command(false, false),
        "mpirun --allow-run-as-root --bind-to none -np 4 cargo-zisk prove-client prove -i in/5.bin -a --port 6100 -p 5 -o output/5 -x"
    );
}

#[test]
fn empty_params_leave_a_trailing_space() {
    let c = prove_command(
        ProveMode { no_distributed: true, no_server: false },
        "e",
        "i",
        "o",
        1,
        "",
        "",
        "",
    );
    assert_eq!(c, "cargo-zisk prove-client prove -i i -a --port 6100 -p 1 -o o ");
}

#[test]
fn json_part_of_a_line() {
    assert_eq!(json_suffix("INFO: {\"a\":1}"), Some("{\"a\":1}".to_string()));
    assert_eq!(json_suffix("no json"), None);
    assert_eq!(json_suffix("x{y{z"), Some("{y{z".to_string()));
}

#[test]
fn accepted_lines() {
    assert!(line_accepts_proof(
        "[INFO] response: {\"node\":0,\"result\":\"in_progress\",\"code\":0}"
    ));
    assert!(!line_accepts_proof("{\"node\":1,\"result\":\"in_progress\",\"code\":0}"));
    assert!(!line_accepts_proof("{\"node\":0,\"result\":\"ok\",\"code\":0}"));
    assert!(!line_accepts_proof("{\"node\":0,\"result\":\"in_progress\",\"code\":\"0\"}"));
    assert!(!line_accepts_proof("{\"node\":0,\"result\":\"in_progress\"}"));
    assert!(!line_accepts_proof("{\"node\":0,\"result\":\"in_progress\",\"code\":0} trailing"));
    assert!(!line_accepts_proof("no json at all"));
}

#[test]
fn idle_lines() {
    assert!(line_reports_idle("status {\"node\": 0, \"result\": \"ok\", \"status\": \"idle\"}"));
    assert!(!line_reports_idle("{\"node\": 0, \"result\": \"ok\", \"status\": \"busy\"}"));
    assert!(!line_reports_idle("{\"node\": -0.5, \"result\": \"ok\", \"status\": \"idle\"}"));
    assert!(!line_reports_idle("{broken"));
}

#[test]
fn run_judgement() {
    assert!(start_rejected(false, false));
    assert!(!start_rejected(false, true));
    assert!(!start_rejected(true, false));
    assert!(generation_succeeded(true, true, false));
    assert!(!generation_succeeded(true, false, false));
    assert!(generation_succeeded(false, false, true));
    assert!(!prove_wait_expired(300));
    assert!(prove_wait_expired(301));
}

#[test]
fn base64_of_proofs() {
    assert_eq!(encode_proof_b64(b""), "");
    assert_eq!(encode_proof_b64(b"M"), "TQ==");
    assert_eq!(encode_proof_b64(b"Ma"), "TWE=");
    assert_eq!(encode_proof_b64(b"Man"), "TWFu");
    assert_eq!(encode_proof_b64(&[0xfb, 0xff, 0xbf]), "+/+/");
    assert_eq!(encode_proof_b64(b"hello world"), "aGVsbG8gd29ybGQ=");
}

#[test]
fn submitted_notice() {
    assert_eq!(
        submitted_message(21000000, 123456, 98765),
        "Proof submitted for block number 21000000, cycles: 123456, proving_time: 98s"
    );
}

#[test]
fn prover_reads_the_saved_input() {
    for n in [0u64, 21, u64::MAX] {
        assert_eq!(
            proof_input_file("upload_inputs", n),
            join_path("upload_inputs", &input_file_name(n))
        );
    }
    assert_eq!(proof_input_file("inputs/", 3), "inputs//3.bin");
    assert_eq!(join_path("inputs/", "3.bin"), "inputs/3.bin");
}

#[test]
fn base64_length_and_round_trip() {
    for len in 0..10usize {
        let d: Vec<u8> = (0..len).map(|i| (i * 37 + 250) as u8).collect();
        let s = encode_proof_b64(&d);
        assert_eq!(s.len(), 4 * ((d.len() + 2) / 3));
        assert_eq!(base64::engine::general_purpose::STANDARD.decode(&s).unwrap(), d);
    }
}
