use gemini_marketplace::mcp::{
    harness_exit_code, harness_response_text, path_candidates, plan_request, reply_for_exec_failure, reply_for_run,
    resolve_cli_path, resolve_server_path, sibling_path, BinaryProbe, ServerRequest,
};

#[test]
fn binaries_are_found_in_priority_order() {
    let nothing = BinaryProbe { env_candidate: None, sibling: None, in_path: None };
    assert_eq!(resolve_cli_path(None, &nothing), "gemini-marketplace");
    assert_eq!(resolve_server_path(None, &nothing), "marketplace-mcp-server");
    assert_eq!(resolve_cli_path(Some("/x/cli".to_string()), &nothing), "/x/cli");
    let probe = BinaryProbe {
        env_candidate: Some(("/env/cli".to_string(), false)),
        sibling: Some(("/bin/gemini-marketplace".to_string(), true)),
        in_path: Some("/usr/bin/gemini-marketplace".to_string()),
    };
    assert_eq!(resolve_cli_path(None, &probe), "/bin/gemini-marketplace");
    let env = BinaryProbe { env_candidate: Some(("/env/cli".to_string(), true)), ..probe.clone() };
    assert_eq!(resolve_cli_path(None, &env), "/env/cli");
    assert_eq!(sibling_path("/opt/tools/marketplace-mcp-server", "gemini-marketplace"), Some("/opt/tools/gemini-marketplace".to_string()));
    assert_eq!(
        path_candidates(&vec!["/usr/bin".to_string(), "/opt/".to_string()], "gemini-marketplace", ""),
        vec!["/usr/bin/gemini-marketplace".to_string(), "/opt/gemini-marketplace".to_string()]
    );
}

#[test]
fn requests_and_replies() {
    assert_eq!(plan_request(Ok(ServerRequest { args: vec!["list".to_string()] })).ok(), Some(vec!["list".to_string()]));
    match plan_request(Err("EOF while parsing".to_string())) {
        Err(reply) => {
            assert_eq!(reply.status, -1);
            assert_eq!(reply.stderr, "failed to parse request: EOF while parsing");
        }
        Ok(_) => panic!("expected a reply"),
    }
    let reply = reply_for_run(None, &b"out".to_vec(), &vec![0xff]);
    assert_eq!(reply.status, -1);
    assert_eq!(reply.stdout, "out");
    assert_eq!(reply.stderr, "\u{fffd}");
    assert_eq!(reply_for_run(Some(3), &Vec::new(), &Vec::new()).status, 3);
    let failed = reply_for_exec_failure("/bin/cli", &vec!["list".to_string()]);
    assert_eq!(failed.stderr, "failed to exec \"/bin/cli\" with args [\"list\"]");
}

#[test]
fn harness_reads_answers_and_exit_codes() {
    assert_eq!(harness_response_text("  {\"status\":0}\n"), Ok("{\"status\":0}".to_string()));
    assert_eq!(harness_response_text(" \n"), Err("server exited without response".to_string()));
    assert_eq!(harness_exit_code(true, Some(0), 4), 4);
    assert_eq!(harness_exit_code(false, Some(2), 0), 2);
    assert_eq!(harness_exit_code(false, None, 0), 1);
}
