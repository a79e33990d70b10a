use vstd::prelude::*;
use rand::Rng;
use crate::monster::Monster;
use crate::player::Player;
use crate::text::{int_text, int_to_string, join3, join5, texts};

verus! {

/// How a combat round ended for the player.
#[derive(Debug, Clone, Copy, PartialEq, Eq, Structural)]
pub enum CombatOutcome {
    Ongoing,
    PlayerWon,
    PlayerFled,
    PlayerDefeated,
}

/// Rolls a twelve-sided die: `rand::Rng::gen_range(1..=12)` on the thread-local generator,
/// which returns a value of the range, 1 to 12 inclusive. Which value comes back is chance.
#[verifier::external_body]
fn roll_d12() -> (r: i32)
    ensures
        1 <= r <= 12,
{
    rand::thread_rng().gen_range(1..=12)
}

/// Flips a fair coin: `rand::random::<bool>()`. Either value may come back.
#[verifier::external_body]
pub(crate) fn flee_drops_item() -> bool {
    rand::random::<bool>()
}

/// A dodge succeeds when the roll is at most the player's speed.
pub fn dodge_roll_succeeds(roll: i32, speed: i32) -> (r: bool)
    ensures
        r == (roll <= speed),
{
    roll <= speed
}

/// Rolls a die and dodges when the roll is at most `speed`: a speed below 1 never dodges,
/// a speed of 12 or more always does.
pub fn dodge_succeeds(speed: i32) -> (r: bool)
    ensures
        r ==> speed >= 1,
        speed >= 12 ==> r,
{
    let roll = roll_d12();
    dodge_roll_succeeds(roll, speed)
}

pub open spec fn hit_line(name: Seq<char>, amount: i32) -> Seq<char> {
    "The "@ + name + " hits you for "@ + int_text(amount as int) + " damage."@
}

pub open spec fn strike_line(name: Seq<char>, amount: i32) -> Seq<char> {
    "You hit the "@ + name + " for "@ + int_text(amount as int) + " damage."@
}

pub open spec fn falls_line(name: Seq<char>) -> Seq<char> {
    "The "@ + name + " falls."@
}

pub open spec fn flee_line(name: Seq<char>) -> Seq<char> {
    "You flee from the "@ + name + "."@
}

/// The player's health after a monster's blow: unchanged when dodged.
pub open spec fn after_blow(health: i32, strength: i32, dodged: bool) -> i32 {
    if dodged { health } else { (health - strength) as i32 }
}

/// The monster's health after the round: only the player's strike, made when the monster
/// attacked first, takes effect.
pub open spec fn monster_after_round(health: i32, player_strength: i32, monster_attacks_first: bool) -> i32 {
    if monster_attacks_first { (health - player_strength) as i32 } else { health }
}

/// The log of one round.
pub open spec fn round_log(name: Seq<char>, player_strength: i32, monster_strength: i32,
    monster_attacks_first: bool, dodged: bool, monster_health_after: i32) -> Seq<Seq<char>> {
    let blow = if dodged {
        if monster_attacks_first { "You dodge the attack!"@ } else { "You dodged the attack!"@ }
    } else {
        hit_line(name, monster_strength)
    };
    let strike = if monster_attacks_first { seq![strike_line(name, player_strength)] } else { Seq::empty() };
    let fall = if monster_health_after <= 0 { seq![falls_line(name)] } else { Seq::empty() };
    seq![blow] + strike + fall
}

/// One round of combat with the dodge already decided: the monster swings (unless dodged),
/// and, when the monster attacks first, the player strikes back.
pub fn resolve_round_with(player: &mut Player, monster: &mut Monster, monster_attacks_first: bool, dodged: bool)
    -> (r: (CombatOutcome, Vec<String>))
    requires
        !dodged ==> i32::MIN <= old(player).health - old(monster).strength <= i32::MAX,
        monster_attacks_first ==> i32::MIN <= old(monster).health - old(player).strength <= i32::MAX,
    ensures
        *final(player) == (Player { health: after_blow(old(player).health, old(monster).strength, dodged), ..*old(player) }),
        *final(monster) == (Monster {
            health: monster_after_round(old(monster).health, old(player).strength, monster_attacks_first),
            ..*old(monster)
        }),
        r.0 == (if final(monster).health <= 0 { CombatOutcome::PlayerWon } else { CombatOutcome::Ongoing }),
        texts(r.1@) == round_log(old(monster).name@, old(player).strength, old(monster).strength,
            monster_attacks_first, dodged, final(monster).health),
{
    let mut log: Vec<String> = Vec::new();
    if monster_attacks_first {
        if dodged {
            log.push(String::from_str("You dodge the attack!"));
        } else {
            player.health = player.health - monster.strength;
            let amount = int_to_string(monster.strength);
            log.push(join5("The ", monster.name.as_str(), " hits you for ", amount.as_str(), " damage."));
        }
        monster.health = monster.health - player.strength;
        let amount = int_to_string(player.strength);
        log.push(join5("You hit the ", monster.name.as_str(), " for ", amount.as_str(), " damage."));
    } else {
        if dodged {
            log.push(String::from_str("You dodged the attack!"));
        } else {
            player.health = player.health - monster.strength;
            let amount = int_to_string(monster.strength);
            log.push(join5("The ", monster.name.as_str(), " hits you for ", amount.as_str(), " damage."));
        }
    }
    if monster.health <= 0 {
        log.push(join3("The ", monster.name.as_str(), " falls."));
        proof {
            assert(texts(log@) =~= round_log(old(monster).name@, old(player).strength, old(monster).strength,
                monster_attacks_first, dodged, monster.health));
        }
        return (CombatOutcome::PlayerWon, log);
    }
    proof {
        assert(texts(log@) =~= round_log(old(monster).name@, old(player).strength, old(monster).strength,
            monster_attacks_first, dodged, monster.health));
    }
    (CombatOutcome::Ongoing, log)
}

/// One round of combat: rolls the player's dodge against their speed, then plays the round.
pub fn resolve_round(player: &mut Player, monster: &mut Monster, monster_attacks_first: bool)
    -> (r: (CombatOutcome, Vec<String>))
    requires
        i32::MIN <= old(player).health - old(monster).strength <= i32::MAX,
        monster_attacks_first ==> i32::MIN <= old(monster).health - old(player).strength <= i32::MAX,
    ensures
        exists|dodged: bool| {
            &&& (dodged ==> old(player).speed >= 1)
            &&& (old(player).speed >= 12 ==> dodged)
            &&& *final(player) == (Player { health: after_blow(old(player).health, old(monster).strength, dodged), ..*old(player) })
            &&& texts(r.1@) == round_log(old(monster).name@, old(player).strength, old(monster).strength,
                monster_attacks_first, dodged, final(monster).health)
        },
        *final(monster) == (Monster {
            health: monster_after_round(old(monster).health, old(player).strength, monster_attacks_first),
            ..*old(monster)
        }),
        r.0 == (if final(monster).health <= 0 { CombatOutcome::PlayerWon } else { CombatOutcome::Ongoing }),
{
    let dodged = dodge_succeeds(player.speed);
    resolve_round_with(player, monster, monster_attacks_first, dodged)
}

/// The log of a flight.
pub open spec fn flee_log(name: Seq<char>, monster_strength: i32, dodged: bool) -> Seq<Seq<char>> {
    let blow = if dodged { "You dodge the attack!"@ } else { hit_line(name, monster_strength) };
    seq![blow, flee_line(name)]
}

/// The player turns to run with the dodge already decided: the monster gets one last swing
/// (unless dodged), and the player gets away.
pub fn resolve_flee_with(player: &mut Player, monster: &Monster, dodged: bool) -> (log: Vec<String>)
    requires
        !dodged ==> i32::MIN <= old(player).health - monster.strength <= i32::MAX,
    ensures
        *final(player) == (Player { health: after_blow(old(player).health, monster.strength, dodged), ..*old(player) }),
        texts(log@) == flee_log(monster.name@, monster.strength, dodged),
{
    let mut log: Vec<String> = Vec::new();
    if dodged {
        log.push(String::from_str("You dodge the attack!"));
    } else {
        player.health = player.health - monster.strength;
        let amount = int_to_string(monster.strength);
        log.push(join5("The ", monster.name.as_str(), " hits you for ", amount.as_str(), " damage."));
    }
    log.push(join3("You flee from the ", monster.name.as_str(), "."));
    proof {
        assert(texts(log@) =~= flee_log(monster.name@, monster.strength, dodged));
    }
    log
}

/// The player turns to run: rolls the dodge against their speed, then flees.
pub fn resolve_flee(player: &mut Player, monster: &Monster) -> (log: Vec<String>)
    requires
        i32::MIN <= old(player).health - monster.strength <= i32::MAX,
    ensures
        exists|dodged: bool| {
            &&& (dodged ==> old(player).speed >= 1)
            &&& (old(player).speed >= 12 ==> dodged)
            &&& *final(player) == (Player { health: after_blow(old(player).health, monster.strength, dodged), ..*old(player) })
            &&& texts(log@) == flee_log(monster.name@, monster.strength, dodged)
        },
{
    let dodged = dodge_succeeds(player.speed);
    resolve_flee_with(player, monster, dodged)
}

} // verus!
