use cuchabot::commands::CommandText;
use cuchabot::config::{parse_u16, parse_u64};
use cuchabot::embed::CuchaEmbed;
use cuchabot::events::{response_handler, responses_for, strip_mention};
use cuchabot::scraping::ScraperBuiler;
use cuchabot::text::{contains_text, decimal_string, same_text};

#[test]
fn decimal_and_search_helpers() {
    assert_eq!(decimal_string(0), "0");
    assert_eq!(decimal_string(1200), "1200");
    assert_eq!(decimal_string(u64::MAX), u64::MAX.to_string());
    assert!(contains_text("say ping now", "ping"));
    assert!(!contains_text("pin", "ping"));
    assert!(contains_text("abc", ""));
    assert!(same_text("ab", "ab"));
    assert!(!same_text("ab", "abc"));
}

#[test]
fn message_replies() {
    assert_eq!(responses_for("ping", false), vec!["pong!".to_string()]);
    assert_eq!(
        responses_for("ping tiburonsin", true),
        vec!["pong!".to_string(), "HU HA HA!".to_string()]
    );
    assert_eq!(responses_for("painguin", true), vec!["https://i.imgur.com/Mb5EzYr.png".to_string()]);
    assert_eq!(responses_for("painpeko", false), vec!["https://i.imgur.com/qSC3eMf.jpeg".to_string()]);
    assert_eq!(responses_for("such pain", true), vec!["https://i.imgur.com/qSC3eMf.jpeg".to_string()]);
    assert_eq!(responses_for("such pain", false), vec!["https://i.imgur.com/Mb5EzYr.png".to_string()]);
    assert!(responses_for("hello", true).is_empty());
    assert!(response_handler("hello").is_empty());
    let r = response_handler("pain");
    assert_eq!(r.len(), 1);
}

#[test]
fn mention_is_stripped() {
    let content = "<@1234567890123456789> hola cucha";
    assert_eq!(content.len() >= 23, true);
    assert_eq!(strip_mention(content), "hola cucha");
}

#[test]
fn emoji_lookup() {
    assert_eq!(CuchaEmbed::find_emoji("XH"), Ok(1246392671057219584));
    assert_eq!(CuchaEmbed::find_emoji("PF"), Ok(1317624426195320973));
    assert_eq!(
        CuchaEmbed::find_emoji("EZ"),
        Err("\nCucha no ha implementado el mod EZ yet\n ¯\\_(ツ)_/¯ \n".to_string())
    );
}

#[test]
fn mods_shown_and_field() {
    let one = vec!["HD".to_string()];
    assert_eq!(CuchaEmbed::mods_to_show(&one), None);
    let mods = vec!["HD".to_string(), "CL".to_string(), "DT".to_string()];
    assert_eq!(CuchaEmbed::mods_to_show(&mods), Some(vec!["HD".to_string(), "DT".to_string()]));
    let field = CuchaEmbed::mods_field(&vec!["<a>".to_string(), "<b>".to_string()]);
    assert_eq!(field, "<a>\t\t\t<b>\t\t\t");
}

#[test]
fn embed_texts() {
    assert_eq!(
        CuchaEmbed::score_description("Artist", "Mapper", "Insane"),
        "by: Artist \nmapped by: Mapper \n'Insane'"
    );
    assert_eq!(CuchaEmbed::new_score_text("xeamx"), "xeamx got a new score!");
    assert_eq!(CuchaEmbed::rank_line(1234567), "rank: 1,234,567\n");
    assert_eq!(CuchaEmbed::formatted_number(0), "0");
    assert_eq!(CuchaEmbed::formatted_number(999), "999");
    assert_eq!(CuchaEmbed::formatted_number(1000), "1,000");
    assert_eq!(CuchaEmbed::formatted_number(u32::MAX), "4,294,967,295");
}

#[test]
fn weekly_affix_from_page() {
    let html = r#"<html><body><div class="col-12 py-3"><b>This week</b> "Tyrannical, Bolstering"</div></body></html>"#;
    assert_eq!(
        ScraperBuiler::weekly_affix_from_html(html),
        Some("Tyrannical, Bolstering".to_string())
    );
    assert_eq!(ScraperBuiler::weekly_affix_from_html("<p>nothing</p>"), Some(String::new()));
    let broken = r#"<div class="col-12 py-3">only one piece</div>"#;
    assert_eq!(ScraperBuiler::weekly_affix_from_html(broken), None);
}

#[test]
fn command_texts() {
    let about = CommandText::about();
    assert!(about.starts_with("I'm CuchaBot, a discord bot. \n"));
    assert!(about.ends_with("Source: https://github.com/Cucharoth/cuchabot_local.git"));
    assert_eq!(
        CommandText::mythicweek("Fortified"),
        "The current World of Warcraft Mythic+ affix are: Fortified"
    );
    let text = CommandText::commands(&vec![("age".to_string(), "Displays age".to_string())]);
    let header = "You can use commands with the '~' prefix\nYou can also ask CuchaBot to use them for you with:\nhey cucha, [command]\n\n";
    let line = format!("[{0}]: {1:width$} \n", "age", "Displays age", width = 100 - 3);
    assert_eq!(text, format!("{}{}", header, line));
}

#[test]
fn parse_numbers() {
    assert_eq!(parse_u64("12345"), Some(12345));
    assert_eq!(parse_u64("+7"), Some(7));
    assert_eq!(parse_u64(""), None);
    assert_eq!(parse_u64("+"), None);
    assert_eq!(parse_u64("-1"), None);
    assert_eq!(parse_u64("12a"), None);
    assert_eq!(parse_u64("18446744073709551615"), Some(u64::MAX));
    assert_eq!(parse_u64("18446744073709551616"), None);
    assert_eq!(parse_u16("11434"), Some(11434));
    assert_eq!(parse_u16("65536"), None);
    for s in ["0", "007", "+42", "x", "99999"] {
        assert_eq!(parse_u16(s), s.parse::<u16>().ok());
    }
}

#[test]
fn age_and_level_texts() {
    assert_eq!(
        CommandText::age("cucha", "2020-01-01T00:00:00Z"),
        "cucha's account was created at 2020-01-01T00:00:00Z"
    );
    assert_eq!(CuchaEmbed::level_line(101), "lv: 101\n");
}

#[test]
fn parse_reads_back_decimal() {
    for n in [0u64, 9, 10, 4096, 1234567890123, u64::MAX] {
        assert_eq!(parse_u64(&decimal_string(n)), Some(n));
    }
}
