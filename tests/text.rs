use dashboard::text::{remove_all, same_text, shorten_command, shorten_model, shorten_url};

#[test]
fn urls_lose_their_scheme() {
    assert_eq!(shorten_url("http://10.0.0.1:8000"), "10.0.0.1:8000");
    assert_eq!(shorten_url("https://gpu-3:443"), "gpu-3:443");
    assert_eq!(shorten_url("gpu-4:80"), "gpu-4:80");
    assert_eq!(remove_all("abcabc", "bc"), "aa");
}

#[test]
fn commands_lose_the_interpreter() {
    assert_eq!(shorten_command("python -m agents.run --n 4"), "agents.run --n 4");
    assert_eq!(shorten_command("python3 -m agents.run"), "agents.run");
    assert_eq!(shorten_command("python run.py"), "run.py");
    assert_eq!(shorten_command("python3 run.py"), "run.py");
    assert_eq!(shorten_command("./run.sh"), "./run.sh");
    let long = "x".repeat(61);
    assert_eq!(shorten_command(&long), format!("{}..", "x".repeat(58)));
    let sixty = "y".repeat(60);
    assert_eq!(shorten_command(&sixty), sixty);
}

#[test]
fn commands_are_measured_in_bytes() {
    // 31 two-byte letters: 62 bytes, byte 58 starts a letter
    let accented = "\u{e9}".repeat(31);
    assert_eq!(shorten_command(&accented), format!("{}..", "\u{e9}".repeat(29)));
    // byte 58 falls inside a letter: cut back to byte 57
    let odd = format!("a{}", "\u{e9}".repeat(30));
    assert_eq!(shorten_command(&odd), format!("a{}..", "\u{e9}".repeat(28)));
    // 30 letters are 60 bytes: kept whole
    let thirty = "\u{e9}".repeat(30);
    assert_eq!(shorten_command(&thirty), thirty);
}

#[test]
fn models_lose_their_organisation() {
    assert_eq!(shorten_model("org/team/model-7b"), "model-7b");
    assert_eq!(shorten_model("model-7b"), "model-7b");
    assert_eq!(shorten_model("org/"), "");
}

#[test]
fn text_comparison() {
    assert!(same_text("abc", "abc"));
    assert!(!same_text("abc", "abd"));
    assert!(!same_text("abc", "ab"));
}
