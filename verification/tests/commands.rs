use rusted::ai::Ollama;
use rusted::bash::{execute_question, options_prompt, prompt_reply, PromptReply};
use rusted::python::Rusted;
use rusted::ssh::SshHost;
use rusted::venv::Venv;

#[test]
fn prompt_answers() {
    assert_eq!(prompt_reply("yes\n"), PromptReply::Execute);
    assert_eq!(prompt_reply("skip\n"), PromptReply::Skip);
    assert_eq!(prompt_reply("exit\n"), PromptReply::Exit);
    assert_eq!(prompt_reply("y\n"), PromptReply::Retry);
    assert_eq!(prompt_reply("yes \n"), PromptReply::Retry);
    assert_eq!(prompt_reply("\n"), PromptReply::Retry);
    assert_eq!(prompt_reply("yes\n\n"), PromptReply::Retry);
}

#[test]
fn prompt_texts() {
    assert_eq!(
        options_prompt(),
        "Please type [yes] to continue, [skip] to skip this step, [exit] to exit: \n"
    );
    assert_eq!(execute_question("git log"), "Execute? \"git log\"");
    assert_eq!(execute_question("echo \"hi\""), "Execute? \"echo \\\"hi\\\"\"");
}

#[test]
fn venv_paths_and_commands() {
    let v = Venv::new("/tmp/abc");
    assert_eq!(v.directory, "/tmp/abc");
    assert_eq!(v.activate, "/tmp/abc/.venv/bin/activate");
    let create = v.creation_call();
    assert_eq!(
        create.command,
        "cd \"/tmp/abc\" && \"python3\" -m venv --upgrade-deps \"/tmp/abc/.venv\" && source \"/tmp/abc/.venv/bin/activate\""
    );
    assert!(!create.verify_command);
    let run = v.bash("echo \"hi\"", true);
    assert_eq!(
        run.command,
        "cd \"/tmp/abc\" && source \"/tmp/abc/.venv/bin/activate\" && bash -c \"echo \\\"hi\\\"\""
    );
    assert!(run.verify_command);
}

#[test]
fn venv_paths_quote_like_pathbuf() {
    let v = Venv::new("/tmp/it's");
    let create = v.creation_call();
    let venv_path = std::path::PathBuf::from("/tmp/it's").join(".venv");
    let activate = venv_path.join("bin/activate");
    let expected = format!(
        "cd {:?} && {:?} -m venv --upgrade-deps {:?} && source {:?}",
        "/tmp/it's", "python3", venv_path, activate
    );
    assert_eq!(create.command, expected);
    assert_eq!(v.activate, activate.to_str().unwrap());
}

fn host() -> SshHost {
    SshHost {
        host: Box::new("lab-1.example.com".to_string()),
        user: Box::new("\"root\"".to_string()),
        key: Box::new("\"/home/me/.ssh/lab\"".to_string()),
    }
}

#[test]
fn ssh_command_line() {
    let call = host().bash("~", "/usr/bin/env bash -i");
    assert_eq!(
        call.command,
        "ssh -i \"\\\"/home/me/.ssh/lab\\\"\" \"root\"@lab-1.example.com /usr/bin/env bash -l -c 'cd \"~\" && /usr/bin/env bash -i'"
    );
    assert!(call.verify_command);
}

#[test]
fn scp_command_line() {
    let call = host().scp_from_host("\"/srv/c/auth/*\"", "/home/me/.kube/c/");
    assert_eq!(
        call.command,
        "scp -i \"/home/me/.ssh/lab\" \"root\"@lab-1.example.com:\"/srv/c/auth/*\" /home/me/.kube/c/"
    );
    assert!(call.verify_command);
}

#[test]
fn ollama_session_calls() {
    let o = Ollama::new("/tmp", "AbC123");
    assert_eq!(o.venv().directory, "/tmp/AbC123");
    assert_eq!(o.venv().activate, "/tmp/AbC123/.venv/bin/activate");
    let calls = o.run("list");
    assert_eq!(calls.len(), 2);
    assert_eq!(
        calls[0].command,
        "cd \"/tmp/AbC123\" && source \"/tmp/AbC123/.venv/bin/activate\" && bash -c \"ollama serve > ~/.ollama-serve.log 2>&1 &\""
    );
    assert_eq!(
        calls[1].command,
        "cd \"/tmp/AbC123\" && source \"/tmp/AbC123/.venv/bin/activate\" && bash -c \"sleep 1; ollama list\""
    );
    assert!(!calls[0].verify_command && !calls[1].verify_command);
    assert_eq!(
        o.shutdown_call().command,
        "cd \"/tmp/AbC123\" && source \"/tmp/AbC123/.venv/bin/activate\" && bash -c \"killall -9 ollama; killall -9 ollama_llama_server\""
    );
}

#[test]
fn python_class() {
    let _r = Rusted::new();
    assert_eq!(Rusted::hello_world_message(), "RUST: Hello world\n");
}
