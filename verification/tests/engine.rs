use ash::clock::Moment;
use ash::dice::Dice;
use ash::policy::{directed_request, is_address, plan_ambient, plan_directed, plan_joke};
use ash::pool::GeneratorPool;
use ash::reply::{perform, words_reply_text, Plan, CORRECTION, REPOSITORY_URL};
use ash::room::Room;
use ash::trigger::{chance, pick, should_send, Cooldowns, TriggerCategory};

fn jokes() -> Vec<String> {
    vec!["first joke".to_string(), "second joke".to_string(), "third joke".to_string()]
}

#[test]
fn categories_have_their_parameters() {
    let first = TriggerCategory::ProtocolIdentity;
    let second = TriggerCategory::LightHumor;
    let third = TriggerCategory::AmbientChatter;
    assert_eq!(first.match_substring(), "jabber");
    assert_eq!(second.match_substring(), "");
    assert_eq!(third.match_substring(), "");
    assert_eq!(first.min_interval_seconds(), 120);
    assert_eq!(second.min_interval_seconds(), 300);
    assert_eq!(third.min_interval_seconds(), 300);
    assert_eq!(first.fire_percent(), 50);
    assert_eq!(second.fire_percent(), 50);
    assert_eq!(third.fire_percent(), 1);
    assert_eq!(first.name(), "protocol-identity");
    assert_eq!(second.name(), "light-humor");
    assert_eq!(third.name(), "ambient-chatter");
}

#[test]
fn new_cooldowns_have_never_fired() {
    let cooldowns = Cooldowns::new();
    assert_eq!(cooldowns.get(TriggerCategory::ProtocolIdentity), None);
    assert_eq!(cooldowns.get(TriggerCategory::LightHumor), None);
    assert_eq!(cooldowns.get(TriggerCategory::AmbientChatter), None);
}

#[test]
fn chance_compares_the_roll_with_the_percentage() {
    let mut dice = Dice::scripted(vec![49, 50, 0, 99]);
    assert!(chance(50, &mut dice));
    assert!(!chance(50, &mut dice));
    assert!(chance(1, &mut dice));
    assert!(!chance(99, &mut dice));
}

#[test]
fn chance_of_nothing_and_of_everything() {
    let mut dice = Dice::live();
    for _ in 0..200 {
        assert!(!chance(0, &mut dice));
        assert!(chance(100, &mut dice));
    }
}

#[test]
fn pick_takes_the_joke_at_the_roll() {
    let mut dice = Dice::scripted(vec![2, 0, 1]);
    assert_eq!(pick(&jokes(), &mut dice), Some("third joke".to_string()));
    assert_eq!(pick(&jokes(), &mut dice), Some("first joke".to_string()));
    assert_eq!(pick(&jokes(), &mut dice), Some("second joke".to_string()));
}

#[test]
fn pick_from_nothing_is_nothing_and_rolls_nothing() {
    let mut dice = Dice::scripted(vec![1]);
    assert_eq!(pick(&Vec::new(), &mut dice), None);
    assert_eq!(dice.remaining(), 1);
}

#[test]
fn pick_by_chance_is_one_of_the_choices() {
    let mut dice = Dice::live();
    let all = jokes();
    for _ in 0..100 {
        let picked = pick(&all, &mut dice).unwrap();
        assert!(all.contains(&picked));
    }
}

#[test]
fn should_send_fires_and_starts_the_cooldown() {
    let mut dice = Dice::scripted(vec![10]);
    let mut last = None;
    let now = Moment::from_secs(5);
    assert!(should_send("i like jabber", &mut last, now, "jabber", 120, 50, &mut dice));
    assert_eq!(last, Some(now));
    assert_eq!(dice.remaining(), 0);
}

#[test]
fn should_send_needs_the_roll() {
    let mut dice = Dice::scripted(vec![50]);
    let mut last = None;
    assert!(!should_send("jabber", &mut last, Moment::from_secs(5), "jabber", 120, 50, &mut dice));
    assert_eq!(last, None);
    assert_eq!(dice.remaining(), 0);
}

#[test]
fn should_send_needs_the_pattern_and_rolls_only_then() {
    let mut dice = Dice::scripted(vec![0]);
    let mut last = None;
    assert!(!should_send("hello", &mut last, Moment::from_secs(5), "jabber", 120, 100, &mut dice));
    assert_eq!(last, None);
    assert_eq!(dice.remaining(), 1);
}

#[test]
fn should_send_with_empty_pattern_takes_any_body() {
    let mut dice = Dice::scripted(vec![0, 0]);
    let mut last = None;
    assert!(should_send("hello", &mut last, Moment::from_secs(5), "", 300, 1, &mut dice));
    let mut other = None;
    assert!(should_send("", &mut other, Moment::from_secs(5), "", 300, 1, &mut dice));
}

#[test]
fn should_send_waits_for_the_interval() {
    let fired = Moment::from_secs(1000);
    let mut last = Some(fired);
    let mut dice = Dice::scripted(vec![0, 0, 0]);
    let early = Moment::from_nanos(1119 * 1_000_000_000 + 999_999_999);
    assert!(!should_send("jabber", &mut last, early, "jabber", 120, 100, &mut dice));
    assert_eq!(last, Some(fired));
    assert_eq!(dice.remaining(), 3);
    let due = Moment::from_secs(1120);
    assert!(should_send("jabber", &mut last, due, "jabber", 120, 100, &mut dice));
    assert_eq!(last, Some(due));
    assert_eq!(dice.remaining(), 2);
}

#[test]
fn should_send_with_a_clock_that_went_back_stays_shut() {
    let mut last = Some(Moment::from_secs(1000));
    let mut dice = Dice::scripted(vec![0]);
    assert!(!should_send("jabber", &mut last, Moment::from_secs(10), "jabber", 1, 100, &mut dice));
    assert_eq!(last, Some(Moment::from_secs(1000)));
}

#[test]
fn directed_request_strips_nick_and_separators() {
    assert_eq!(directed_request("ash: repo", "ash"), Some("repo"));
    assert_eq!(directed_request("ash, words", "ash"), Some("words"));
    assert_eq!(directed_request("ash repo", "ash"), Some("repo"));
    assert_eq!(directed_request("ash,: ,repo now", "ash"), Some("repo now"));
    assert_eq!(directed_request("ash", "ash"), Some(""));
    assert_eq!(directed_request("ash:", "ash"), Some(""));
    assert_eq!(directed_request("ash:\trepo", "ash"), Some("repo"));
    assert_eq!(directed_request("ash\nrepo", "ash"), Some("repo"));
}

#[test]
fn directed_request_keeps_the_request_as_typed() {
    assert_eq!(directed_request("ash: Tell me MORE ", "ash"), Some("Tell me MORE "));
    assert_eq!(directed_request("ASH: Repo", "ash"), Some("Repo"));
}

#[test]
fn directed_request_takes_the_nick_in_any_case() {
    assert_eq!(directed_request("ash: repo", "Ash"), Some("repo"));
    assert_eq!(directed_request("Ash: repo", "ash"), Some("repo"));
    assert_eq!(directed_request("aSH, repo", "AsH"), Some("repo"));
    assert_eq!(directed_request("\u{c9}mile: repo", "\u{e9}mile"), Some("repo"));
}

#[test]
fn directed_request_wants_a_separator_or_the_end_after_the_nick() {
    assert_eq!(directed_request("ashes to ashes", "ash"), None);
    assert_eq!(directed_request("ashrepo", "ash"), None);
    assert_eq!(directed_request("ash;repo", "ash"), None);
    assert_eq!(directed_request("ash-repo", "ash"), None);
}

#[test]
fn directed_request_wants_the_nick_first() {
    assert_eq!(directed_request("hello ash", "ash"), None);
    assert_eq!(directed_request(" ash: repo", "ash"), None);
    assert_eq!(directed_request("as", "ash"), None);
    assert_eq!(directed_request("", "ash"), None);
}

#[test]
fn directed_request_with_an_empty_nick() {
    assert_eq!(directed_request(": hello", ""), Some("hello"));
    assert_eq!(directed_request("", ""), Some(""));
    assert_eq!(directed_request("hello", ""), None);
}

#[test]
fn is_address_compares_and_looks_at_what_follows() {
    assert!(is_address("ash", "ash", None));
    assert!(is_address("ash", "ash", Some(':')));
    assert!(is_address("ash", "ash", Some(',')));
    assert!(is_address("ash", "ash", Some(' ')));
    assert!(is_address("ash", "ash", Some('\t')));
    assert!(!is_address("ash", "ash", Some('e')));
    assert!(!is_address("as", "ash", None));
    assert!(!is_address("ash", "Ash", None));
}

#[test]
fn plan_directed_knows_the_commands() {
    let mut dice = Dice::scripted(vec![1]);
    assert_eq!(plan_directed("jabber", &jokes(), &mut dice), Plan::Say(CORRECTION.to_string()));
    assert_eq!(plan_directed("repo", &jokes(), &mut dice), Plan::Say(REPOSITORY_URL.to_string()));
    assert_eq!(plan_directed("code", &jokes(), &mut dice), Plan::Say(REPOSITORY_URL.to_string()));
    assert_eq!(plan_directed("words", &jokes(), &mut dice), Plan::CountWords);
    assert_eq!(dice.remaining(), 1);
    assert_eq!(plan_directed("dad", &jokes(), &mut dice), Plan::Say("second joke".to_string()));
    assert_eq!(dice.remaining(), 0);
}

#[test]
fn plan_directed_trims_the_command() {
    let mut dice = Dice::live();
    assert_eq!(
        plan_directed("  repo \t", &jokes(), &mut dice),
        Plan::Say(REPOSITORY_URL.to_string())
    );
    assert_eq!(plan_directed("\nwords\n", &jokes(), &mut dice), Plan::CountWords);
}

#[test]
fn plan_directed_sends_the_rest_to_the_chain() {
    let mut dice = Dice::scripted(vec![0]);
    assert_eq!(plan_directed("tell me more", &jokes(), &mut dice), Plan::Generate);
    assert_eq!(plan_directed("", &jokes(), &mut dice), Plan::Generate);
    assert_eq!(plan_directed("repos", &jokes(), &mut dice), Plan::Generate);
    assert_eq!(plan_directed("dad joke", &jokes(), &mut dice), Plan::Generate);
    assert_eq!(plan_directed("repository", &jokes(), &mut dice), Plan::Generate);
    assert_eq!(plan_directed("re po", &jokes(), &mut dice), Plan::Generate);
    assert_eq!(dice.remaining(), 1);
}

#[test]
fn plan_directed_without_jokes_has_no_joke() {
    let mut dice = Dice::scripted(vec![0]);
    assert_eq!(plan_directed("dad", &Vec::new(), &mut dice), Plan::Silent);
    assert_eq!(dice.remaining(), 1);
}

#[test]
fn plan_joke_tells_the_joke_rolled() {
    let mut dice = Dice::scripted(vec![0]);
    assert_eq!(plan_joke(&jokes(), &mut dice), Plan::Say("first joke".to_string()));
    assert_eq!(plan_joke(&Vec::new(), &mut dice), Plan::Silent);
}

#[test]
fn ambient_correction_comes_first() {
    let mut cooldowns = Cooldowns::new();
    let mut dice = Dice::scripted(vec![49, 0, 0, 0, 0]);
    let now = Moment::from_secs(7);
    let plan = plan_ambient(&mut cooldowns, "jabber is fine", now, &jokes(), &mut dice);
    assert_eq!(plan, Plan::Say(CORRECTION.to_string()));
    assert_eq!(cooldowns.protocol_identity, Some(now));
    assert_eq!(cooldowns.light_humor, None);
    assert_eq!(cooldowns.ambient_chatter, None);
    assert_eq!(dice.remaining(), 4);
}

#[test]
fn ambient_humor_comes_second() {
    let mut cooldowns = Cooldowns::new();
    let mut dice = Dice::scripted(vec![50, 10, 2, 0]);
    let now = Moment::from_secs(7);
    let plan = plan_ambient(&mut cooldowns, "jabber is fine", now, &jokes(), &mut dice);
    assert_eq!(plan, Plan::Say("third joke".to_string()));
    assert_eq!(cooldowns.protocol_identity, None);
    assert_eq!(cooldowns.light_humor, Some(now));
    assert_eq!(cooldowns.ambient_chatter, None);
    assert_eq!(dice.remaining(), 1);
}

#[test]
fn ambient_without_the_pattern_skips_the_first_roll() {
    let mut cooldowns = Cooldowns::new();
    let mut dice = Dice::scripted(vec![10, 1, 77]);
    let now = Moment::from_secs(7);
    let plan = plan_ambient(&mut cooldowns, "hello there", now, &jokes(), &mut dice);
    assert_eq!(plan, Plan::Say("second joke".to_string()));
    assert_eq!(cooldowns.light_humor, Some(now));
    assert_eq!(cooldowns.protocol_identity, None);
    assert_eq!(dice.remaining(), 1);
}

#[test]
fn ambient_chatter_tells_a_joke_on_a_low_coin() {
    let mut cooldowns = Cooldowns::new();
    let mut dice = Dice::scripted(vec![99, 0, 49, 0, 5]);
    let now = Moment::from_secs(7);
    let plan = plan_ambient(&mut cooldowns, "hello there", now, &jokes(), &mut dice);
    assert_eq!(plan, Plan::Say("first joke".to_string()));
    assert_eq!(cooldowns.light_humor, None);
    assert_eq!(cooldowns.ambient_chatter, Some(now));
    assert_eq!(dice.remaining(), 1);
}

#[test]
fn ambient_chatter_generates_on_a_high_coin() {
    let mut cooldowns = Cooldowns::new();
    let mut dice = Dice::scripted(vec![99, 0, 50, 5]);
    let now = Moment::from_secs(7);
    let plan = plan_ambient(&mut cooldowns, "hello there", now, &jokes(), &mut dice);
    assert_eq!(plan, Plan::Generate);
    assert_eq!(cooldowns.ambient_chatter, Some(now));
    assert_eq!(dice.remaining(), 1);
}

#[test]
fn ambient_stays_silent_when_no_roll_is_low() {
    let mut cooldowns = Cooldowns::new();
    let before = cooldowns;
    let mut dice = Dice::scripted(vec![50, 50, 1, 0]);
    let plan = plan_ambient(&mut cooldowns, "jabber", Moment::from_secs(7), &jokes(), &mut dice);
    assert_eq!(plan, Plan::Silent);
    assert_eq!(cooldowns, before);
    assert_eq!(dice.remaining(), 1);
}

#[test]
fn ambient_category_rests_after_firing() {
    let mut cooldowns = Cooldowns::new();
    let mut dice = Dice::scripted(vec![0, 99, 99, 0, 0, 0, 0, 0, 0, 0]);
    let fired = Moment::from_secs(1000);
    let plan = plan_ambient(&mut cooldowns, "jabber", fired, &jokes(), &mut dice);
    assert_eq!(plan, Plan::Say(CORRECTION.to_string()));
    let soon = Moment::from_secs(1119);
    let plan = plan_ambient(&mut cooldowns, "jabber", soon, &jokes(), &mut dice);
    assert_eq!(plan, Plan::Silent);
    assert_eq!(cooldowns.protocol_identity, Some(fired));
    assert_eq!(dice.remaining(), 7);
    let due = Moment::from_secs(1120);
    let plan = plan_ambient(&mut cooldowns, "jabber", due, &jokes(), &mut dice);
    assert_eq!(plan, Plan::Say(CORRECTION.to_string()));
    assert_eq!(cooldowns.protocol_identity, Some(due));
}

#[test]
fn ambient_by_chance_never_fires_a_category_twice_within_its_interval() {
    let mut dice = Dice::live();
    for round in 0..50u64 {
        let mut cooldowns = Cooldowns::new();
        let mut fired = [0u32; 3];
        for step in 0..100u64 {
            let now = Moment::from_secs(round * 10_000 + step);
            let before = cooldowns;
            plan_ambient(&mut cooldowns, "jabber", now, &jokes(), &mut dice);
            let moved = [
                cooldowns.protocol_identity != before.protocol_identity,
                cooldowns.light_humor != before.light_humor,
                cooldowns.ambient_chatter != before.ambient_chatter,
            ];
            assert!(moved.iter().filter(|m| **m).count() <= 1);
            for (count, m) in fired.iter_mut().zip(moved) {
                if m {
                    *count += 1;
                }
            }
        }
        assert!(fired.iter().all(|count| *count <= 1));
    }
}

#[test]
fn words_reply_text_embeds_the_count() {
    assert_eq!(words_reply_text(0), "I know 0 words!");
    assert_eq!(words_reply_text(1502), "I know 1502 words!");
}

#[test]
fn correction_and_repository_texts() {
    assert!(CORRECTION.starts_with("I'd just like to interject for a moment."));
    assert!(CORRECTION.ends_with("standardization and extensibility.\n"));
    assert_eq!(CORRECTION.len(), 356);
    assert_eq!(REPOSITORY_URL, "https://github.com/moparisthebest/ash");
}

#[test]
fn pool_has_at_least_one_chain() {
    assert_eq!(GeneratorPool::new(0).len(), 1);
    assert_eq!(GeneratorPool::new(1).len(), 1);
    assert_eq!(GeneratorPool::new(4).len(), 4);
}

#[test]
fn pool_chains_learn_on_their_own() {
    let mut pool = GeneratorPool::new(3);
    for chain in 0..3 {
        assert_eq!(pool.word_count(chain), 0);
    }
    pool.ingest(1, "the quick brown fox");
    assert_eq!(pool.word_count(0), 0);
    assert_eq!(pool.word_count(1), 4);
    assert_eq!(pool.word_count(2), 0);
    pool.ingest(1, "The lazy fox");
    assert_eq!(pool.word_count(1), 5);
    pool.ingest(2, "fox");
    assert_eq!(pool.word_count(2), 1);
    assert_eq!(pool.word_count(0), 0);
}

#[test]
fn pool_generate_says_nothing_before_learning() {
    let mut pool = GeneratorPool::new(2);
    assert_eq!(pool.generate(0, "hello there"), None);
    assert_eq!(pool.generate(1, ""), None);
    assert_eq!(pool.word_count(0), 0);
    assert_eq!(pool.word_count(1), 0);
}

#[test]
fn pool_generate_speaks_after_learning_and_learns_nothing_from_it() {
    let mut pool = GeneratorPool::new(1);
    pool.ingest(0, "hello");
    assert_eq!(pool.word_count(0), 1);
    for _ in 0..20 {
        let said = pool.generate(0, "unheard words here");
        assert_eq!(said, Some("hello".to_string()));
    }
    assert_eq!(pool.word_count(0), 1);
}

#[test]
fn perform_turns_plans_into_replies() {
    let mut pool = GeneratorPool::new(2);
    pool.ingest(1, "one two three");
    assert_eq!(perform(Plan::Silent, "seed", &mut pool, 0), None);
    assert_eq!(perform(Plan::Say("hi".to_string()), "seed", &mut pool, 0), Some("hi".to_string()));
    assert_eq!(
        perform(Plan::CountWords, "seed", &mut pool, 0),
        Some("I know 0 words!".to_string())
    );
    assert_eq!(
        perform(Plan::CountWords, "seed", &mut pool, 1),
        Some("I know 3 words!".to_string())
    );
    assert_eq!(perform(Plan::Generate, "seed", &mut pool, 0), None);
    assert!(perform(Plan::Generate, "one", &mut pool, 1).is_some());
    assert_eq!(pool.word_count(0), 0);
    assert_eq!(pool.word_count(1), 3);
}

#[test]
fn room_new_binds_chain_zero() {
    let room = Room::new("ash".to_string(), "chat".to_string(), "example.org".to_string(), vec![]);
    assert_eq!(room.chain_indices(), &vec![0]);
    assert_eq!(room.primary_chain(), 0);
    let room =
        Room::new("ash".to_string(), "chat".to_string(), "example.org".to_string(), vec![2, 2, 1]);
    assert_eq!(room.chain_indices(), &vec![2, 1, 0]);
    assert_eq!(room.primary_chain(), 2);
    assert_eq!(room.nick(), "ash");
    assert_eq!(room.local(), "chat");
    assert_eq!(room.domain(), "example.org");
    assert_eq!(room.cooldowns(), Cooldowns::new());
}

#[test]
fn room_answers_commands_in_any_case() {
    let mut room =
        Room::new("ash".to_string(), "chat".to_string(), "example.org".to_string(), vec![0]);
    let mut pool = GeneratorPool::new(1);
    let mut dice = Dice::scripted(vec![]);
    let now = Moment::from_secs(1);
    let reply = room.respond("ASH: Repo", now, &jokes(), &mut pool, &mut dice);
    assert_eq!(reply, Some(REPOSITORY_URL.to_string()));
    let reply = room.respond("ash, words", now, &jokes(), &mut pool, &mut dice);
    assert_eq!(reply, Some("I know 0 words!".to_string()));
    assert_eq!(room.cooldowns(), Cooldowns::new());
}

#[test]
fn room_speaks_from_its_first_chain() {
    let mut room =
        Room::new("ash".to_string(), "chat".to_string(), "example.org".to_string(), vec![1, 0]);
    let mut pool = GeneratorPool::new(2);
    pool.ingest(0, "alpha beta");
    pool.ingest(1, "gamma");
    let mut dice = Dice::live();
    let now = Moment::from_secs(1);
    assert_eq!(
        room.respond("ash: words", now, &jokes(), &mut pool, &mut dice),
        Some("I know 1 words!".to_string())
    );
    assert_eq!(
        room.respond("ash: anything else", now, &jokes(), &mut pool, &mut dice),
        Some("gamma".to_string())
    );
}

#[test]
fn room_directed_message_ignores_cooldowns() {
    let room = Room::new("ash".to_string(), "chat".to_string(), "example.org".to_string(), vec![]);
    let mut pool = GeneratorPool::new(1);
    let mut dice = Dice::scripted(vec![1, 1]);
    for _ in 0..2 {
        assert_eq!(
            room.directed_message("dad", "dad", &jokes(), &mut pool, &mut dice),
            Some("second joke".to_string())
        );
    }
    assert_eq!(
        room.directed_message("jabber", "jabber", &jokes(), &mut pool, &mut dice),
        Some(CORRECTION.to_string())
    );
}

#[test]
fn room_directed_message_looks_for_commands_in_the_folded_text() {
    let room = Room::new("ash".to_string(), "chat".to_string(), "example.org".to_string(), vec![]);
    let mut pool = GeneratorPool::new(1);
    let mut dice = Dice::live();
    assert_eq!(
        room.directed_message("CODE", "code", &jokes(), &mut pool, &mut dice),
        Some(REPOSITORY_URL.to_string())
    );
    assert_eq!(room.directed_message("Tell me MORE", "tell me more", &jokes(), &mut pool, &mut dice), None);
    pool.ingest(0, "more");
    assert_eq!(
        room.directed_message("Tell me MORE", "tell me more", &jokes(), &mut pool, &mut dice),
        Some("more".to_string())
    );
    assert_eq!(pool.word_count(0), 1);
}

#[test]
fn room_takes_a_word_that_begins_like_the_nick_as_ambient() {
    let mut room =
        Room::new("ash".to_string(), "chat".to_string(), "example.org".to_string(), vec![]);
    let mut pool = GeneratorPool::new(1);
    pool.ingest(0, "something learned");
    let mut dice = Dice::scripted(vec![99, 99]);
    let reply = room.respond("ashes to ashes", Moment::from_secs(1), &jokes(), &mut pool, &mut dice);
    assert_eq!(reply, None);
    assert_eq!(dice.remaining(), 0);
}

#[test]
fn room_answers_to_a_nick_with_capitals() {
    let mut room =
        Room::new("Ash".to_string(), "chat".to_string(), "example.org".to_string(), vec![]);
    let mut pool = GeneratorPool::new(1);
    let mut dice = Dice::live();
    let now = Moment::from_secs(1);
    assert_eq!(
        room.respond("ash: repo", now, &jokes(), &mut pool, &mut dice),
        Some(REPOSITORY_URL.to_string())
    );
    assert_eq!(
        room.respond("Ash, CODE", now, &jokes(), &mut pool, &mut dice),
        Some(REPOSITORY_URL.to_string())
    );
}

#[test]
fn room_non_directed_message_goes_by_the_triggers() {
    let mut room =
        Room::new("ash".to_string(), "chat".to_string(), "example.org".to_string(), vec![]);
    let mut pool = GeneratorPool::new(1);
    let mut dice = Dice::scripted(vec![0, 99, 99]);
    let now = Moment::from_secs(3);
    let reply =
        room.non_directed_message("Jabber rules", "jabber rules", now, &jokes(), &mut pool, &mut dice);
    assert_eq!(reply, Some(CORRECTION.to_string()));
    assert_eq!(room.cooldowns().protocol_identity, Some(now));
    let reply =
        room.non_directed_message("Jabber rules", "jabber rules", now, &jokes(), &mut pool, &mut dice);
    assert_eq!(reply, None);
}
