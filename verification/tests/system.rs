use nursearch::i18n::Lang;
use nursearch::system::commands;

#[test]
fn power_actions_go_through_the_plasma_confirmation_prompt() {
    let all = commands();
    for id in ["system:shutdown", "system:reboot", "system:logout"] {
        let command = all.iter().find(|command| command.id == id).unwrap();
        assert!(
            !command.command.contains(&"systemctl"),
            "{id} must ask for confirmation instead of acting directly"
        );
        assert!(command.command.iter().any(|arg| arg.contains("LogoutPrompt")));
    }
}

#[test]
fn system_keywords_match_only_at_word_starts() {
    let all = commands();
    let shutdown = all.iter().find(|c| c.id == "system:shutdown").unwrap();
    assert!(shutdown.match_score("ter", Lang::En).is_none());
    assert!(shutdown.match_score("herunter", Lang::En).is_some());
    let lock = all.iter().find(|c| c.id == "system:lock").unwrap();
    assert!(lock.match_score("sperren", Lang::De).is_some());
    assert!(lock.match_score("", Lang::En).is_none());
}
