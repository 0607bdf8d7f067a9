use rget::{command_from_words, parse_command, Command};

fn get(url: &str, outfile: &str) -> Command {
    Command::Get { url: url.to_string(), outfile: outfile.to_string() }
}

fn same(a: &Command, b: &Command) -> bool {
    match (a, b) {
        (Command::Quit, Command::Quit) => true,
        (Command::Get { url: u1, outfile: o1 }, Command::Get { url: u2, outfile: o2 }) => u1 == u2 && o1 == o2,
        _ => false,
    }
}

#[test]
fn url_with_and_without_outfile() {
    assert!(same(&parse_command("https://x/ out.html\n", "rget.out"), &get("https://x/", "out.html")));
    assert!(same(&parse_command("  https://x/   ", "rget.out"), &get("https://x/", "rget.out")));
    assert!(same(&parse_command("https://x/\ta b", "d"), &get("https://x/", "a")));
}

#[test]
fn quit_words_and_empty_lines() {
    assert!(same(&parse_command("quit\n", "d"), &Command::Quit));
    assert!(same(&parse_command("q", "d"), &Command::Quit));
    assert!(same(&parse_command("", "d"), &Command::Quit));
    assert!(same(&parse_command("   \n", "d"), &Command::Quit));
    assert!(same(&parse_command("quitter", "d"), &get("quitter", "d")));
}

#[test]
fn words_give_the_command() {
    let w = vec!["u".to_string(), "f".to_string()];
    assert!(same(&command_from_words(&w, "d"), &get("u", "f")));
    assert!(same(&command_from_words(&vec![], "d"), &Command::Quit));
}
