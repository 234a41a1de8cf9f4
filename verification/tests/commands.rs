use hyprnote::commands::{
    command_highlight_indices, command_match_score, commands, slash_command, COMMAND_COUNT,
};

#[test]
fn slash_commands_in_order() {
    let all = commands();
    assert_eq!(all.len(), COMMAND_COUNT);
    let names: Vec<&str> = all.iter().map(|c| c.name).collect();
    assert_eq!(names, vec!["/connect", "/listen", "/auth", "/desktop", "/exit"]);
    assert_eq!(slash_command(3).description, "Open desktop app or download page");
    assert_eq!(slash_command(4).description, "Exit");
}

#[test]
fn match_scores_by_kind_of_match() {
    assert_eq!(command_match_score("", "/connect"), Some(1));
    assert_eq!(command_match_score("  ", "/exit"), Some(1));
    assert_eq!(command_match_score("li", "/listen"), Some(496));
    assert_eq!(command_match_score("LIS", "/listen"), Some(497));
    assert_eq!(command_match_score("t", "/connect"), Some(344));
    assert_eq!(command_match_score("cnt", "/connect"), Some(190));
    assert_eq!(command_match_score("xyz", "/connect"), None);
}

#[test]
fn exit_matches_its_alias_with_a_penalty() {
    assert_eq!(command_match_score("quit", "/exit"), Some(475));
    assert_eq!(command_match_score("qt", "/exit"), Some(170));
    assert_eq!(command_match_score("t", "/exit"), Some(347));
    assert_eq!(command_match_score("quit", "/listen"), None);
}

#[test]
fn highlight_positions() {
    assert_eq!(command_highlight_indices("li", "/listen"), vec![0, 1]);
    assert_eq!(command_highlight_indices("sten", "/listen"), vec![2, 3, 4, 5]);
    assert_eq!(command_highlight_indices("cnt", "/connect"), vec![0, 2, 6]);
    assert_eq!(command_highlight_indices("", "/connect"), Vec::<usize>::new());
    assert_eq!(command_highlight_indices("zz", "/connect"), Vec::<usize>::new());
}

#[test]
fn highlighted_characters_spell_the_query() {
    for query in ["c", "con", "nn", "ct", "desk", "kt", "ex", "it", "lsn", "auth"] {
        for command in commands() {
            let body: Vec<char> = command.name.trim_start_matches('/').chars().collect();
            let idx = command_highlight_indices(query, command.name);
            if idx.is_empty() {
                continue;
            }
            let spelled: String = idx.iter().map(|&i| body[i]).collect();
            assert_eq!(spelled, query, "{} in {}", query, command.name);
        }
    }
}

#[test]
fn highlights_exactly_when_the_name_itself_matches() {
    // "quit" matches /exit only through its alias: nothing of "exit" is highlighted.
    assert!(command_match_score("quit", "/exit").is_some());
    assert!(command_highlight_indices("quit", "/exit").is_empty());
    assert_eq!(command_highlight_indices("et", "/exit"), vec![0, 3]);
    assert!(command_match_score("et", "/exit").is_some());
    assert!(command_highlight_indices("zz", "/exit").is_empty());
    assert!(command_match_score("zz", "/exit").is_none());
}

#[test]
fn long_command_names_are_scored() {
    let long = format!("/{}b", "a".repeat(1999));
    assert_eq!(command_match_score("ab", &long), Some(350 - 1998));
    assert_eq!(command_match_score("aa", &long), Some(500 - 1998));
}
