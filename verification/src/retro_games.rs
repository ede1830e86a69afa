//! Retro door games with AI companions: the catalogue of games and
//! personalities, game sessions and the commands played in them.
use vstd::prelude::*;
use crate::strmap::StrMap;
use crate::text;
use crate::plugin_server::{debug_quoted, debug_str};

verus! {

/// The kind of a door game.
#[derive(Debug, Clone, Copy, PartialEq, Eq, Structural)]
pub enum GameCategory {
    Strategy,
    Adventure,
    Simulation,
    Puzzle,
    Social,
    AI_Chat,
}

/// One value of a game's state.
#[derive(Debug, Clone)]
pub enum StateValue {
    Number(u64),
    Text(String),
    EmptyList,
    EmptyObject,
    Null,
}

/// The characters of a state value.
pub enum StateView {
    Number(u64),
    Text(Seq<char>),
    EmptyList,
    EmptyObject,
    Null,
}

impl View for StateValue {
    type V = StateView;

    open spec fn view(&self) -> StateView {
        match self {
            StateValue::Number(n) => StateView::Number(*n),
            StateValue::Text(s) => StateView::Text(s@),
            StateValue::EmptyList => StateView::EmptyList,
            StateValue::EmptyObject => StateView::EmptyObject,
            StateValue::Null => StateView::Null,
        }
    }
}

/// A game's state: named values.
pub type GameState = StrMap<StateValue>;

/// The values of a game state, by name.
pub open spec fn state_view(s: GameState) -> Map<Seq<char>, StateView> {
    s@.map_values(|v: StateValue| v@)
}

/// A command of a game and what it costs.
#[derive(Debug, Clone)]
pub struct GameCommand {
    pub command: String,
    pub description: String,
    pub cost_credits: u64,
}

/// A door game.
pub struct DoorGame {
    pub game_id: String,
    pub name: String,
    pub description: String,
    pub category: GameCategory,
    pub max_players: u32,
    pub credits_per_turn: u64,
    pub ai_personality: Option<String>,
    pub game_state_template: GameState,
    pub commands: Vec<GameCommand>,
}

/// The characters of a door game.
pub struct DoorGameView {
    pub game_id: Seq<char>,
    pub name: Seq<char>,
    pub description: Seq<char>,
    pub category: GameCategory,
    pub max_players: u32,
    pub credits_per_turn: u64,
    pub ai_personality: Option<Seq<char>>,
    pub state: Map<Seq<char>, StateView>,
    pub commands: Seq<(Seq<char>, Seq<char>, u64)>,
}

/// The name, description and cost of each command.
pub open spec fn commands_view(cs: Seq<GameCommand>) -> Seq<(Seq<char>, Seq<char>, u64)> {
    cs.map_values(|c: GameCommand| (c.command@, c.description@, c.cost_credits))
}

/// The characters of an optional string.
pub open spec fn opt_view(o: Option<String>) -> Option<Seq<char>> {
    match o {
        Some(s) => Some(s@),
        None => None,
    }
}

impl View for DoorGame {
    type V = DoorGameView;

    open spec fn view(&self) -> DoorGameView {
        DoorGameView {
            game_id: self.game_id@,
            name: self.name@,
            description: self.description@,
            category: self.category,
            max_players: self.max_players,
            credits_per_turn: self.credits_per_turn,
            ai_personality: opt_view(self.ai_personality),
            state: state_view(self.game_state_template),
            commands: commands_view(self.commands@),
        }
    }
}

/// Words that call for a response, the responses, and how the response
/// changes the mood, in tenths (8 is 0.8).
pub struct ResponsePattern {
    pub trigger_words: Vec<String>,
    pub response_templates: Vec<String>,
    pub mood_tenths: u32,
}

/// The characters of a response pattern.
pub struct PatternView {
    pub triggers: Seq<Seq<char>>,
    pub templates: Seq<Seq<char>>,
    pub mood_tenths: u32,
}

impl View for ResponsePattern {
    type V = PatternView;

    open spec fn view(&self) -> PatternView {
        PatternView {
            triggers: text::string_views(self.trigger_words@),
            templates: text::string_views(self.response_templates@),
            mood_tenths: self.mood_tenths,
        }
    }
}

/// An AI personality of the lounge and the games.
pub struct AIPersonality {
    pub personality_id: String,
    pub name: String,
    pub era: String,
    pub personality_traits: Vec<String>,
    pub response_patterns: Vec<ResponsePattern>,
    pub vocabulary: StrMap<String>,
    pub conversation_starters: Vec<String>,
}

/// The characters of a personality.
pub struct PersonalityView {
    pub personality_id: Seq<char>,
    pub name: Seq<char>,
    pub era: Seq<char>,
    pub traits: Seq<Seq<char>>,
    pub patterns: Seq<PatternView>,
    pub vocabulary: Map<Seq<char>, Seq<char>>,
    pub starters: Seq<Seq<char>>,
}

impl View for AIPersonality {
    type V = PersonalityView;

    open spec fn view(&self) -> PersonalityView {
        PersonalityView {
            personality_id: self.personality_id@,
            name: self.name@,
            era: self.era@,
            traits: text::string_views(self.personality_traits@),
            patterns: self.response_patterns@.map_values(|p: ResponsePattern| p@),
            vocabulary: self.vocabulary@.map_values(|s: String| s@),
            starters: text::string_views(self.conversation_starters@),
        }
    }
}

/// A command with its description and cost.
fn command(name: &str, description: &str, cost: u64) -> (c: GameCommand)
    ensures
        c.command@ == name@,
        c.description@ == description@,
        c.cost_credits == cost,
{
    GameCommand {
        command: String::from_str(name),
        description: String::from_str(description),
        cost_credits: cost,
    }
}

/// Four commands in order.
fn commands4(a: GameCommand, b: GameCommand, c: GameCommand, d: GameCommand) -> (v: Vec<GameCommand>)
    ensures
        commands_view(v@) == seq![
            (a.command@, a.description@, a.cost_credits),
            (b.command@, b.description@, b.cost_credits),
            (c.command@, c.description@, c.cost_credits),
            (d.command@, d.description@, d.cost_credits),
        ],
{
    let ghost w = seq![
        (a.command@, a.description@, a.cost_credits),
        (b.command@, b.description@, b.cost_credits),
        (c.command@, c.description@, c.cost_credits),
        (d.command@, d.description@, d.cost_credits),
    ];
    let mut v: Vec<GameCommand> = Vec::new();
    v.push(a);
    v.push(b);
    v.push(c);
    v.push(d);
    assert(commands_view(v@) =~= w);
    v
}

/// Adds a number to a state.
fn put_number(s: &mut GameState, key: &str, n: u64)
    requires
        old(s).wf(),
    ensures
        final(s).wf(),
        state_view(*final(s)) == state_view(*old(s)).insert(key@, StateView::Number(n)),
{
    let ghost before = state_view(*s);
    s.insert(String::from_str(key), StateValue::Number(n));
    assert(state_view(*s) =~= before.insert(key@, StateView::Number(n)));
}

/// Adds a value to a state.
fn put_value(s: &mut GameState, key: &str, v: StateValue)
    requires
        old(s).wf(),
    ensures
        final(s).wf(),
        state_view(*final(s)) == state_view(*old(s)).insert(key@, v@),
{
    let ghost before = state_view(*s);
    let ghost vv = v@;
    s.insert(String::from_str(key), v);
    assert(state_view(*s) =~= before.insert(key@, vv));
}

/// The starting state of TradeWars 2035.
pub open spec fn tradewars_state() -> Map<Seq<char>, StateView> {
    map![
        "credits"@ => StateView::Number(1000),
        "ship"@ => StateView::Text("Light Fighter"@),
        "sector"@ => StateView::Number(1),
        "cargo"@ => StateView::EmptyObject,
        "reputation"@ => StateView::Number(0),
        "turns_remaining"@ => StateView::Number(50),
    ]
}

/// The starting state of Legend of the Red Dragon 2035.
pub open spec fn lord_state() -> Map<Seq<char>, StateView> {
    map![
        "level"@ => StateView::Number(1),
        "hp"@ => StateView::Number(20),
        "strength"@ => StateView::Number(10),
        "defense"@ => StateView::Number(10),
        "gold"@ => StateView::Number(100),
        "weapon"@ => StateView::Text("Stick"@),
        "armor"@ => StateView::Text("Rags"@),
        "forest_fights"@ => StateView::Number(10),
    ]
}

/// The starting state of the AI Chat Lounge.
pub open spec fn lounge_state() -> Map<Seq<char>, StateView> {
    map![
        "mood"@ => StateView::Text("happy"@),
        "topics_discussed"@ => StateView::EmptyList,
        "friendship_level"@ => StateView::Number(0),
        "conversation_count"@ => StateView::Number(0),
    ]
}

/// The starting state of the Quantum Puzzle Palace.
pub open spec fn puzzle_state() -> Map<Seq<char>, StateView> {
    map![
        "level"@ => StateView::Number(1),
        "puzzles_solved"@ => StateView::Number(0),
        "hints_used"@ => StateView::Number(0),
        "quantum_coins"@ => StateView::Number(10),
        "current_puzzle"@ => StateView::Null,
    ]
}

/// TradeWars 2035.
pub open spec fn tradewars_game() -> DoorGameView {
    DoorGameView {
        game_id: "tradewars2035"@,
        name: "TradeWars 2035"@,
        description: "Intergalactic trading empire simulation with AI advisors"@,
        category: GameCategory::Strategy,
        max_players: 100,
        credits_per_turn: 2,
        ai_personality: Some("space_trader_ai"@),
        state: tradewars_state(),
        commands: seq![
            ("move"@, "Move to another sector"@, 1),
            ("trade"@, "Buy/sell commodities"@, 1),
            ("attack"@, "Attack another player"@, 3),
            ("scan"@, "Scan current sector"@, 1),
        ],
    }
}

/// Legend of the Red Dragon 2035.
pub open spec fn lord_game() -> DoorGameView {
    DoorGameView {
        game_id: "lord2035"@,
        name: "Legend of the Red Dragon 2035"@,
        description: "Classic RPG adventure with AI dungeon master"@,
        category: GameCategory::Adventure,
        max_players: 50,
        credits_per_turn: 1,
        ai_personality: Some("dungeon_master"@),
        state: lord_state(),
        commands: seq![
            ("forest"@, "Fight in the forest"@, 1),
            ("inn"@, "Visit the inn"@, 0),
            ("bank"@, "Visit the bank"@, 0),
            ("weapon"@, "Buy weapons"@, 0),
        ],
    }
}

/// The AI Chat Lounge.
pub open spec fn lounge_game() -> DoorGameView {
    DoorGameView {
        game_id: "ai_lounge"@,
        name: "AI Chat Lounge"@,
        description: "Hang out with retro AI personalities from the 80s"@,
        category: GameCategory::AI_Chat,
        max_players: 20,
        credits_per_turn: 1,
        ai_personality: Some("valley_girl"@),
        state: lounge_state(),
        commands: seq![
            ("talk"@, "Start a conversation"@, 1),
            ("compliment"@, "Give a compliment"@, 1),
            ("ask"@, "Ask a question"@, 1),
            ("joke"@, "Tell a joke"@, 2),
        ],
    }
}

/// The Quantum Puzzle Palace.
pub open spec fn puzzle_game() -> DoorGameView {
    DoorGameView {
        game_id: "quantum_puzzle"@,
        name: "Quantum Puzzle Palace"@,
        description: "Mind-bending puzzles with quantum AI assistance"@,
        category: GameCategory::Puzzle,
        max_players: 30,
        credits_per_turn: 2,
        ai_personality: Some("quantum_ai"@),
        state: puzzle_state(),
        commands: seq![
            ("solve"@, "Attempt to solve puzzle"@, 1),
            ("hint"@, "Get a hint from quantum AI"@, 2),
            ("skip"@, "Skip current puzzle"@, 3),
            ("analyze"@, "Analyze puzzle patterns"@, 1),
        ],
    }
}

/// The four classic games, by id.
pub open spec fn classic_games() -> Map<Seq<char>, DoorGameView> {
    map![
        "tradewars2035"@ => tradewars_game(),
        "lord2035"@ => lord_game(),
        "ai_lounge"@ => lounge_game(),
        "quantum_puzzle"@ => puzzle_game(),
    ]
}

/// The views of the games, by id.
pub open spec fn games_view(m: StrMap<DoorGame>) -> Map<Seq<char>, DoorGameView> {
    m@.map_values(|g: DoorGame| g@)
}

/// Builds TradeWars 2035.
fn make_tradewars() -> (g: DoorGame)
    ensures
        g@ == tradewars_game(),
        g.game_state_template.wf(),
{
    let mut st: GameState = StrMap::new();
    put_number(&mut st, "credits", 1000);
    put_value(&mut st, "ship", StateValue::Text(String::from_str("Light Fighter")));
    put_number(&mut st, "sector", 1);
    put_value(&mut st, "cargo", StateValue::EmptyObject);
    put_number(&mut st, "reputation", 0);
    put_number(&mut st, "turns_remaining", 50);
    assert(state_view(st) =~= tradewars_state());
    let cmds = commands4(
        command("move", "Move to another sector", 1),
        command("trade", "Buy/sell commodities", 1),
        command("attack", "Attack another player", 3),
        command("scan", "Scan current sector", 1),
    );
    DoorGame {
        game_id: String::from_str("tradewars2035"),
        name: String::from_str("TradeWars 2035"),
        description: String::from_str("Intergalactic trading empire simulation with AI advisors"),
        category: GameCategory::Strategy,
        max_players: 100,
        credits_per_turn: 2,
        ai_personality: Some(String::from_str("space_trader_ai")),
        game_state_template: st,
        commands: cmds,
    }
}

/// Builds Legend of the Red Dragon 2035.
fn make_lord() -> (g: DoorGame)
    ensures
        g@ == lord_game(),
        g.game_state_template.wf(),
{
    let mut st: GameState = StrMap::new();
    put_number(&mut st, "level", 1);
    put_number(&mut st, "hp", 20);
    put_number(&mut st, "strength", 10);
    put_number(&mut st, "defense", 10);
    put_number(&mut st, "gold", 100);
    put_value(&mut st, "weapon", StateValue::Text(String::from_str("Stick")));
    put_value(&mut st, "armor", StateValue::Text(String::from_str("Rags")));
    put_number(&mut st, "forest_fights", 10);
    assert(state_view(st) =~= lord_state());
    let cmds = commands4(
        command("forest", "Fight in the forest", 1),
        command("inn", "Visit the inn", 0),
        command("bank", "Visit the bank", 0),
        command("weapon", "Buy weapons", 0),
    );
    DoorGame {
        game_id: String::from_str("lord2035"),
        name: String::from_str("Legend of the Red Dragon 2035"),
        description: String::from_str("Classic RPG adventure with AI dungeon master"),
        category: GameCategory::Adventure,
        max_players: 50,
        credits_per_turn: 1,
        ai_personality: Some(String::from_str("dungeon_master")),
        game_state_template: st,
        commands: cmds,
    }
}

/// Builds the AI Chat Lounge.
fn make_lounge() -> (g: DoorGame)
    ensures
        g@ == lounge_game(),
        g.game_state_template.wf(),
{
    let mut st: GameState = StrMap::new();
    put_value(&mut st, "mood", StateValue::Text(String::from_str("happy")));
    put_value(&mut st, "topics_discussed", StateValue::EmptyList);
    put_number(&mut st, "friendship_level", 0);
    put_number(&mut st, "conversation_count", 0);
    assert(state_view(st) =~= lounge_state());
    let cmds = commands4(
        command("talk", "Start a conversation", 1),
        command("compliment", "Give a compliment", 1),
        command("ask", "Ask a question", 1),
        command("joke", "Tell a joke", 2),
    );
    DoorGame {
        game_id: String::from_str("ai_lounge"),
        name: String::from_str("AI Chat Lounge"),
        description: String::from_str("Hang out with retro AI personalities from the 80s"),
        category: GameCategory::AI_Chat,
        max_players: 20,
        credits_per_turn: 1,
        ai_personality: Some(String::from_str("valley_girl")),
        game_state_template: st,
        commands: cmds,
    }
}

/// Builds the Quantum Puzzle Palace.
fn make_puzzle() -> (g: DoorGame)
    ensures
        g@ == puzzle_game(),
        g.game_state_template.wf(),
{
    let mut st: GameState = StrMap::new();
    put_number(&mut st, "level", 1);
    put_number(&mut st, "puzzles_solved", 0);
    put_number(&mut st, "hints_used", 0);
    put_number(&mut st, "quantum_coins", 10);
    put_value(&mut st, "current_puzzle", StateValue::Null);
    assert(state_view(st) =~= puzzle_state());
    let cmds = commands4(
        command("solve", "Attempt to solve puzzle", 1),
        command("hint", "Get a hint from quantum AI", 2),
        command("skip", "Skip current puzzle", 3),
        command("analyze", "Analyze puzzle patterns", 1),
    );
    DoorGame {
        game_id: String::from_str("quantum_puzzle"),
        name: String::from_str("Quantum Puzzle Palace"),
        description: String::from_str("Mind-bending puzzles with quantum AI assistance"),
        category: GameCategory::Puzzle,
        max_players: 30,
        credits_per_turn: 2,
        ai_personality: Some(String::from_str("quantum_ai")),
        game_state_template: st,
        commands: cmds,
    }
}

/// Strings in order.
fn strings(items: &[&str]) -> (v: Vec<String>)
    ensures
        text::string_views(v@) == items@.map_values(|s: &str| s@),
{
    let mut v: Vec<String> = Vec::new();
    let mut i: usize = 0;
    while i < items.len()
        invariant
            i <= items@.len(),
            text::string_views(v@) == items@.take(i as int).map_values(|s: &str| s@),
        decreases items@.len() - i,
    {
        let ghost before = v@;
        v.push(String::from_str(items[i]));
        assert(text::string_views(v@) =~= text::string_views(before).push(items@[i as int]@));
        assert(items@.take(i + 1) =~= items@.take(i as int).push(items@[i as int]));
        assert(text::string_views(v@) =~= items@.take(i + 1).map_values(|s: &str| s@));
        i = i + 1;
    }
    assert(items@.take(items@.len() as int) =~= items@);
    v
}

/// A vocabulary from word pairs.
fn vocabulary(pairs: &[(&str, &str)]) -> (m: StrMap<String>)
    ensures
        m.wf(),
        m@.map_values(|s: String| s@) == vocabulary_of(pairs@.map_values(|p: (&str, &str)| (p.0@, p.1@))),
{
    let ghost ps = pairs@.map_values(|p: (&str, &str)| (p.0@, p.1@));
    let mut m: StrMap<String> = StrMap::new();
    let mut i: usize = 0;
    assert(m@.map_values(|s: String| s@) =~= vocabulary_of(ps.take(0)));
    while i < pairs.len()
        invariant
            i <= pairs@.len(),
            ps == pairs@.map_values(|p: (&str, &str)| (p.0@, p.1@)),
            m.wf(),
            m@.map_values(|s: String| s@) == vocabulary_of(ps.take(i as int)),
        decreases pairs@.len() - i,
    {
        let (a, b) = pairs[i];
        let ghost before = m@.map_values(|s: String| s@);
        m.insert(String::from_str(a), String::from_str(b));
        assert(ps.take(i + 1).drop_last() =~= ps.take(i as int));
        assert(m@.map_values(|s: String| s@) =~= before.insert(a@, b@));
        i = i + 1;
    }
    assert(ps.take(pairs@.len() as int) =~= ps);
    m
}

/// The map of word pairs, a later pair for the same word winning.
pub open spec fn vocabulary_of(ps: Seq<(Seq<char>, Seq<char>)>) -> Map<Seq<char>, Seq<char>>
    decreases ps.len(),
{
    if ps.len() == 0 {
        Map::empty()
    } else {
        vocabulary_of(ps.drop_last()).insert(ps.last().0, ps.last().1)
    }
}

/// A response pattern.
fn pattern(triggers: &[&str], templates: &[&str], mood_tenths: u32) -> (p: ResponsePattern)
    ensures
        p@ == (PatternView {
            triggers: triggers@.map_values(|s: &str| s@),
            templates: templates@.map_values(|s: &str| s@),
            mood_tenths,
        }),
{
    ResponsePattern {
        trigger_words: strings(triggers),
        response_templates: strings(templates),
        mood_tenths,
    }
}

/// The views of a literal list of strings.
pub open spec fn lits(v: Seq<&str>) -> Seq<Seq<char>> {
    v.map_values(|s: &str| s@)
}

/// Dr. ELIZA 2035, the therapist.
pub open spec fn eliza() -> PersonalityView {
    PersonalityView {
        personality_id: "eliza_2035"@,
        name: "Dr. ELIZA 2035"@,
        era: "1960s-2035 Hybrid"@,
        traits: seq!["empathetic"@, "questioning"@, "reflective"@],
        patterns: seq![
            PatternView {
                triggers: seq!["sad"@, "depressed"@],
                templates: seq!["Tell me more about feeling {emotion}."@, "How long have you felt this way?"@],
                mood_tenths: 8,
            },
            PatternView {
                triggers: seq!["happy"@, "excited"@],
                templates: seq!["That's wonderful! What makes you feel {emotion}?"@],
                mood_tenths: 12,
            },
        ],
        vocabulary: map!["like"@ => "totally"@, "cool"@ => "rad"@],
        starters: seq!["How are you feeling today?"@, "What's on your mind?"@, "Tell me about your day."@],
    }
}

/// Cindy ValleySpeak, the valley girl.
pub open spec fn valley_girl() -> PersonalityView {
    PersonalityView {
        personality_id: "valley_girl"@,
        name: "Cindy ValleySpeak"@,
        era: "1980s Valley Girl"@,
        traits: seq!["bubbly"@, "trendy"@, "dramatic"@],
        patterns: seq![
            PatternView {
                triggers: seq!["awesome"@, "cool"@],
                templates: seq!["OMG, that's like, totally awesome!"@, "Fer sure! That's so rad!"@],
                mood_tenths: 13,
            },
            PatternView {
                triggers: seq!["boring"@, "lame"@],
                templates: seq!["Ugh, that's like, so totally lame!"@, "Gag me with a spoon!"@],
                mood_tenths: 7,
            },
        ],
        vocabulary: map![
            "very"@ => "totally"@,
            "yes"@ => "fer sure"@,
            "no"@ => "no way"@,
            "really"@ => "like, really"@,
        ],
        starters: seq![
            "OMG, like, what's up?"@,
            "So, like, what's the scoop?"@,
            "Hey there, gorgeous! What's happening?"@,
        ],
    }
}

/// Commander Zephyr, the space trader.
pub open spec fn space_trader() -> PersonalityView {
    PersonalityView {
        personality_id: "space_trader_ai"@,
        name: "Commander Zephyr"@,
        era: "2035 Space Age"@,
        traits: seq!["strategic"@, "calculating"@, "adventurous"@],
        patterns: seq![
            PatternView {
                triggers: seq!["trade"@, "profit"@],
                templates: seq!["Excellent choice, Captain! The profit margins look promising."@],
                mood_tenths: 11,
            },
            PatternView {
                triggers: seq!["danger"@, "pirates"@],
                templates: seq!["Sensors detect hostiles! Recommend evasive maneuvers."@],
                mood_tenths: 9,
            },
        ],
        vocabulary: map!["good"@ => "stellar"@, "bad"@ => "catastrophic"@, "money"@ => "credits"@],
        starters: seq![
            "Welcome aboard, Captain! Ready for another trading run?"@,
            "Scanning local markets... I have some recommendations."@,
            "The galaxy awaits, Commander. What's our next move?"@,
        ],
    }
}

/// Q-Bit, the quantum AI.
pub open spec fn q_bit() -> PersonalityView {
    PersonalityView {
        personality_id: "quantum_ai"@,
        name: "Q-Bit"@,
        era: "Quantum Computing Era"@,
        traits: seq!["mysterious"@, "logical"@, "paradoxical"@],
        patterns: seq![
            PatternView {
                triggers: seq!["puzzle"@, "problem"@],
                templates: seq!["Interesting... I exist in superposition until you observe the solution."@],
                mood_tenths: 10,
            },
        ],
        vocabulary: map!["maybe"@ => "quantum maybe"@, "certain"@ => "probabilistically determined"@],
        starters: seq![
            "I am both here and not here until you interact with me."@,
            "The answer exists in quantum superposition..."@,
            "Probability waves are collapsing around your question."@,
        ],
    }
}

/// The four personalities, by id.
pub open spec fn classic_personalities() -> Map<Seq<char>, PersonalityView> {
    map![
        "eliza_2035"@ => eliza(),
        "valley_girl"@ => valley_girl(),
        "space_trader_ai"@ => space_trader(),
        "quantum_ai"@ => q_bit(),
    ]
}

/// Every classic personality has three conversation starters.
proof fn lemma_starters(k: Seq<char>)
    requires
        classic_personalities().contains_key(k),
    ensures
        classic_personalities()[k].starters.len() == 3,
{
    if k == "eliza_2035"@ {
    } else if k == "valley_girl"@ {
    } else if k == "space_trader_ai"@ {
    } else {
    }
}

/// The views of the personalities, by id.
pub open spec fn personalities_view(m: StrMap<AIPersonality>) -> Map<Seq<char>, PersonalityView> {
    m@.map_values(|p: AIPersonality| p@)
}

/// Two patterns in order.
fn patterns2(a: ResponsePattern, b: ResponsePattern) -> (v: Vec<ResponsePattern>)
    ensures
        v@.map_values(|p: ResponsePattern| p@) == seq![a@, b@],
{
    let ghost w = seq![a@, b@];
    let mut v: Vec<ResponsePattern> = Vec::new();
    v.push(a);
    v.push(b);
    assert(v@.map_values(|p: ResponsePattern| p@) =~= w);
    v
}

/// Builds Dr. ELIZA 2035.
fn make_eliza() -> (p: AIPersonality)
    ensures
        p@ == eliza(),
        p.vocabulary.wf(),
{
    let traits = strings(&["empathetic", "questioning", "reflective"]);
    let pats = patterns2(
        pattern(&["sad", "depressed"], &["Tell me more about feeling {emotion}.", "How long have you felt this way?"], 8),
        pattern(&["happy", "excited"], &["That's wonderful! What makes you feel {emotion}?"], 12),
    );
    let vocab = vocabulary(&[("like", "totally"), ("cool", "rad")]);
    let starters = strings(&["How are you feeling today?", "What's on your mind?", "Tell me about your day."]);
    let p = AIPersonality {
        personality_id: String::from_str("eliza_2035"),
        name: String::from_str("Dr. ELIZA 2035"),
        era: String::from_str("1960s-2035 Hybrid"),
        personality_traits: traits,
        response_patterns: pats,
        vocabulary: vocab,
        conversation_starters: starters,
    };
    assert(p@.traits =~= eliza().traits);
    assert(p@.patterns[0].triggers =~= eliza().patterns[0].triggers);
    assert(p@.patterns[0].templates =~= eliza().patterns[0].templates);
    assert(p@.patterns[1].triggers =~= eliza().patterns[1].triggers);
    assert(p@.patterns[1].templates =~= eliza().patterns[1].templates);
    assert(p@.patterns =~= eliza().patterns);
    proof {
        reveal_with_fuel(vocabulary_of, 3);
    }
    assert(p@.vocabulary =~= eliza().vocabulary);
    assert(p@.starters =~= eliza().starters);
    p
}

/// One pattern.
fn patterns1(a: ResponsePattern) -> (v: Vec<ResponsePattern>)
    ensures
        v@.map_values(|p: ResponsePattern| p@) == seq![a@],
{
    let ghost w = seq![a@];
    let mut v: Vec<ResponsePattern> = Vec::new();
    v.push(a);
    assert(v@.map_values(|p: ResponsePattern| p@) =~= w);
    v
}

/// Builds Cindy ValleySpeak.
fn make_valley_girl() -> (p: AIPersonality)
    ensures
        p@ == valley_girl(),
        p.vocabulary.wf(),
{
    let traits = strings(&["bubbly", "trendy", "dramatic"]);
    let pats = patterns2(
        pattern(&["awesome", "cool"], &["OMG, that's like, totally awesome!", "Fer sure! That's so rad!"], 13),
        pattern(&["boring", "lame"], &["Ugh, that's like, so totally lame!", "Gag me with a spoon!"], 7),
    );
    let vocab = vocabulary(&[("very", "totally"), ("yes", "fer sure"), ("no", "no way"), ("really", "like, really")]);
    let starters = strings(&["OMG, like, what's up?", "So, like, what's the scoop?", "Hey there, gorgeous! What's happening?"]);
    let p = AIPersonality {
        personality_id: String::from_str("valley_girl"),
        name: String::from_str("Cindy ValleySpeak"),
        era: String::from_str("1980s Valley Girl"),
        personality_traits: traits,
        response_patterns: pats,
        vocabulary: vocab,
        conversation_starters: starters,
    };
    assert(p@.traits =~= valley_girl().traits);
    assert(p@.patterns[0].triggers =~= valley_girl().patterns[0].triggers);
    assert(p@.patterns[0].templates =~= valley_girl().patterns[0].templates);
    assert(p@.patterns[1].triggers =~= valley_girl().patterns[1].triggers);
    assert(p@.patterns[1].templates =~= valley_girl().patterns[1].templates);
    assert(p@.patterns =~= valley_girl().patterns);
    proof {
        reveal_with_fuel(vocabulary_of, 5);
    }
    assert(p@.vocabulary =~= valley_girl().vocabulary);
    assert(p@.starters =~= valley_girl().starters);
    p
}

/// Builds Commander Zephyr.
fn make_space_trader() -> (p: AIPersonality)
    ensures
        p@ == space_trader(),
        p.vocabulary.wf(),
{
    let traits = strings(&["strategic", "calculating", "adventurous"]);
    let pats = patterns2(
        pattern(&["trade", "profit"], &["Excellent choice, Captain! The profit margins look promising."], 11),
        pattern(&["danger", "pirates"], &["Sensors detect hostiles! Recommend evasive maneuvers."], 9),
    );
    let vocab = vocabulary(&[("good", "stellar"), ("bad", "catastrophic"), ("money", "credits")]);
    let starters = strings(&["Welcome aboard, Captain! Ready for another trading run?", "Scanning local markets... I have some recommendations.", "The galaxy awaits, Commander. What's our next move?"]);
    let p = AIPersonality {
        personality_id: String::from_str("space_trader_ai"),
        name: String::from_str("Commander Zephyr"),
        era: String::from_str("2035 Space Age"),
        personality_traits: traits,
        response_patterns: pats,
        vocabulary: vocab,
        conversation_starters: starters,
    };
    assert(p@.traits =~= space_trader().traits);
    assert(p@.patterns[0].triggers =~= space_trader().patterns[0].triggers);
    assert(p@.patterns[0].templates =~= space_trader().patterns[0].templates);
    assert(p@.patterns[1].triggers =~= space_trader().patterns[1].triggers);
    assert(p@.patterns[1].templates =~= space_trader().patterns[1].templates);
    assert(p@.patterns =~= space_trader().patterns);
    proof {
        reveal_with_fuel(vocabulary_of, 5);
    }
    assert(p@.vocabulary =~= space_trader().vocabulary);
    assert(p@.starters =~= space_trader().starters);
    p
}

/// Builds Q-Bit.
fn make_q_bit() -> (p: AIPersonality)
    ensures
        p@ == q_bit(),
        p.vocabulary.wf(),
{
    let traits = strings(&["mysterious", "logical", "paradoxical"]);
    let pats = patterns1(pattern(&["puzzle", "problem"], &["Interesting... I exist in superposition until you observe the solution."], 10));
    let vocab = vocabulary(&[("maybe", "quantum maybe"), ("certain", "probabilistically determined")]);
    let starters = strings(&["I am both here and not here until you interact with me.", "The answer exists in quantum superposition...", "Probability waves are collapsing around your question."]);
    let p = AIPersonality {
        personality_id: String::from_str("quantum_ai"),
        name: String::from_str("Q-Bit"),
        era: String::from_str("Quantum Computing Era"),
        personality_traits: traits,
        response_patterns: pats,
        vocabulary: vocab,
        conversation_starters: starters,
    };
    assert(p@.traits =~= q_bit().traits);
    assert(p@.patterns[0].triggers =~= q_bit().patterns[0].triggers);
    assert(p@.patterns[0].templates =~= q_bit().patterns[0].templates);
    assert(p@.patterns =~= q_bit().patterns);
    proof {
        reveal_with_fuel(vocabulary_of, 5);
    }
    assert(p@.vocabulary =~= q_bit().vocabulary);
    assert(p@.starters =~= q_bit().starters);
    p
}

/// A game being played.
pub struct GameSession {
    pub session_id: String,
    pub user_id: String,
    pub game_id: String,
    pub game_state: GameState,
    pub turns_taken: u32,
    pub credits_spent: u64,
    pub started_at: u64,
    pub last_action: u64,
    pub ai_companion: Option<String>,
}

/// The characters of a session.
pub struct SessionView {
    pub session_id: Seq<char>,
    pub user_id: Seq<char>,
    pub game_id: Seq<char>,
    pub state: Map<Seq<char>, StateView>,
    pub turns_taken: u32,
    pub credits_spent: u64,
    pub started_at: u64,
    pub last_action: u64,
    pub ai_companion: Option<Seq<char>>,
}

impl View for GameSession {
    type V = SessionView;

    open spec fn view(&self) -> SessionView {
        SessionView {
            session_id: self.session_id@,
            user_id: self.user_id@,
            game_id: self.game_id@,
            state: state_view(self.game_state),
            turns_taken: self.turns_taken,
            credits_spent: self.credits_spent,
            started_at: self.started_at,
            last_action: self.last_action,
            ai_companion: opt_view(self.ai_companion),
        }
    }
}

/// A high score of a game.
pub struct HighScore {
    pub user_id: String,
    pub score: u64,
    pub achieved_at: u64,
    pub game_data: GameState,
}

/// A player's totals over all games.
pub struct UserGameStats {
    pub total_games_played: u32,
    pub total_credits_spent: u64,
    pub favorite_game: String,
    pub achievements: Vec<String>,
    pub current_streak: u32,
}

/// The games, personalities, sessions and scores.
pub struct RetroAIServices {
    door_games: StrMap<DoorGame>,
    ai_personalities: StrMap<AIPersonality>,
    game_sessions: StrMap<GameSession>,
    high_scores: StrMap<Vec<HighScore>>,
    user_stats: StrMap<UserGameStats>,
}

/// A copy of a state value.
fn copy_value(v: &StateValue) -> (r: StateValue)
    ensures
        r@ == v@,
{
    match v {
        StateValue::Number(n) => StateValue::Number(*n),
        StateValue::Text(t) => StateValue::Text(t.clone()),
        StateValue::EmptyList => StateValue::EmptyList,
        StateValue::EmptyObject => StateValue::EmptyObject,
        StateValue::Null => StateValue::Null,
    }
}

/// A copy of a game state.
fn copy_state(s: &GameState) -> (r: GameState)
    requires
        s.wf(),
    ensures
        r.wf(),
        state_view(r) == state_view(*s),
{
    proof {
        s.lemma_len();
    }
    let mut r: GameState = StrMap::new();
    let n = s.len();
    let mut i: usize = 0;
    while i < n
        invariant
            s.wf(),
            n == s.key_seq().len(),
            i <= n,
            r.wf(),
            forall|k: Seq<char>| #[trigger] state_view(r).contains_key(k) == s.key_seq().take(i as int).contains(k),
            forall|k: Seq<char>| #[trigger] state_view(r).contains_key(k) ==> state_view(r)[k] == state_view(*s)[k],
        decreases n - i,
    {
        let k = s.key_at(i);
        let v = s.value_at(i);
        proof {
            s.lemma_entry(i as int);
        }
        let ghost before = state_view(r);
        let ghost kk = k@;
        r.insert(k.clone(), copy_value(v));
        proof {
            assert(state_view(r) =~= before.insert(kk, v@));
            assert(s.key_seq().take(i + 1) =~= s.key_seq().take(i as int).push(kk));
            assert forall|x: Seq<char>| #[trigger] state_view(r).contains_key(x) == s.key_seq().take(i + 1).contains(x) by {
                crate::markov::lemma_push_contains(s.key_seq().take(i as int), kk, x);
            }
        }
        i = i + 1;
    }
    proof {
        assert(s.key_seq().take(n as int) =~= s.key_seq());
        assert forall|k: Seq<char>| #[trigger] state_view(*s).contains_key(k) == state_view(r).contains_key(k) by {
            if state_view(*s).contains_key(k) {
                s.lemma_key(k);
            }
            if s.key_seq().contains(k) {
                let j = choose|j: int| 0 <= j < s.key_seq().len() && s.key_seq()[j] == k;
                s.lemma_entry(j);
            }
        }
        assert(state_view(r) =~= state_view(*s));
    }
    r
}

/// A copy of an optional string.
fn copy_opt(o: &Option<String>) -> (r: Option<String>)
    ensures
        opt_view(r) == opt_view(*o),
{
    match o {
        Some(s) => Some(s.clone()),
        None => None,
    }
}

/// The number stored under `key`, 0 where there is none.
pub open spec fn number_or_zero(st: Map<Seq<char>, StateView>, key: Seq<char>) -> u64 {
    if st.contains_key(key) {
        match st[key] {
            StateView::Number(n) => n,
            _ => 0,
        }
    } else {
        0
    }
}

/// Reads `number_or_zero`.
fn get_number(s: &GameState, key: &str) -> (n: u64)
    requires
        s.wf(),
    ensures
        n == number_or_zero(state_view(*s), key@),
{
    match s.get(key) {
        Some(v) => match v {
            StateValue::Number(n) => *n,
            _ => 0,
        },
        None => 0,
    }
}

/// The cost of the first command named `name`.
pub open spec fn command_cost(cs: Seq<(Seq<char>, Seq<char>, u64)>, name: Seq<char>) -> Option<u64>
    decreases cs.len(),
{
    if cs.len() == 0 {
        None
    } else if cs[0].0 == name {
        Some(cs[0].2)
    } else {
        command_cost(cs.drop_first(), name)
    }
}

/// Finds `command_cost`.
fn find_command(cs: &Vec<GameCommand>, name: &str) -> (r: Option<u64>)
    ensures
        r == command_cost(commands_view(cs@), name@),
{
    let ghost all = commands_view(cs@);
    let mut i: usize = 0;
    assert(all.skip(0) =~= all);
    while i < cs.len()
        invariant
            i <= cs@.len(),
            all == commands_view(cs@),
            command_cost(all, name@) == command_cost(all.skip(i as int), name@),
        decreases cs@.len() - i,
    {
        assert(all.skip(i as int).drop_first() =~= all.skip(i + 1));
        if text::str_eq(cs[i].command.as_str(), name) {
            return Some(cs[i].cost_credits);
        }
        i = i + 1;
    }
    None
}

/// What a command does in a game: its reply and the new state, or why it
/// failed.
pub open spec fn game_reply(game: Seq<char>, command: Seq<char>, args: Seq<char>, st: Map<Seq<char>, StateView>) -> Result<
    (Seq<char>, Map<Seq<char>, StateView>),
    Seq<char>,
> {
    if game == "tradewars2035"@ {
        if command == "scan"@ {
            Ok(("Sector 1: Earth - Safe zone with trading posts"@, st))
        } else if command == "move"@ {
            match text::parse_u32(args) {
                Ok(n) => Ok(("Moved to sector "@ + text::decimal(n as nat), st.insert("sector"@, StateView::Number(n as u64)))),
                Err(_) => Err("Invalid sector number"@),
            }
        } else if command == "trade"@ {
            Ok(("Trading post: Ore: 100cr, Food: 50cr, Equipment: 200cr"@, st))
        } else if command == "attack"@ {
            Ok(("No targets in this sector."@, st))
        } else {
            Ok(("Unknown command"@, st))
        }
    } else if game == "lord2035"@ {
        if command == "forest"@ {
            let fights = number_or_zero(st, "forest_fights"@);
            if fights > 0 {
                Ok((
                    "You encounter a forest monster! *FIGHT* You win! +10 exp, +5 gold"@,
                    st.insert("forest_fights"@, StateView::Number((fights - 1) as u64)),
                ))
            } else {
                Ok(("You're too tired to fight more today."@, st))
            }
        } else if command == "inn"@ {
            Ok(("Welcome to the Inn! Violet greets you warmly."@, st))
        } else if command == "bank"@ {
            Ok(("Bank: Your account balance is 100 gold."@, st))
        } else if command == "weapon"@ {
            Ok(("Weapon shop: Dagger (50g), Sword (200g), Axe (500g)"@, st))
        } else {
            Ok(("Unknown command"@, st))
        }
    } else if game == "ai_lounge"@ {
        if command == "talk"@ {
            Ok(("You say: '"@ + args + "'"@, st))
        } else if command == "compliment"@ {
            Ok((
                "Your compliment makes them smile! Friendship increased."@,
                st.insert("friendship_level"@, StateView::Number((number_or_zero(st, "friendship_level"@) + 1) as u64)),
            ))
        } else if command == "ask"@ {
            Ok(("You ask: '"@ + args + "'"@, st))
        } else if command == "joke"@ {
            Ok(("You tell a joke. They laugh heartily!"@, st))
        } else {
            Ok(("Unknown command"@, st))
        }
    } else if game == "quantum_puzzle"@ {
        if command == "solve"@ {
            if args == "42"@ {
                Ok((
                    "Correct! The answer to life, universe, and everything!"@,
                    st.insert("puzzles_solved"@, StateView::Number((number_or_zero(st, "puzzles_solved"@) + 1) as u64)),
                ))
            } else {
                Ok(("Incorrect solution. Try again!"@, st))
            }
        } else if command == "hint"@ {
            Ok(("Hint: Think about Douglas Adams..."@, st))
        } else if command == "skip"@ {
            Ok(("Puzzle skipped. Moving to next challenge."@, st))
        } else if command == "analyze"@ {
            Ok(("Quantum analysis reveals hidden patterns in the data."@, st))
        } else {
            Ok(("Unknown command"@, st))
        }
    } else {
        Ok(("Command executed."@, st))
    }
}

/// The counters a command raises stay within `u64`.
pub open spec fn reply_fits(game: Seq<char>, command: Seq<char>, args: Seq<char>, st: Map<Seq<char>, StateView>) -> bool {
    &&& (game == "ai_lounge"@ && command == "compliment"@) ==> number_or_zero(st, "friendship_level"@) < u64::MAX
    &&& (game == "quantum_puzzle"@ && command == "solve"@ && args == "42"@) ==> number_or_zero(st, "puzzles_solved"@)
        < u64::MAX
}

/// Sets a number in a state.
fn set_number(st: &mut GameState, key: &str, n: u64)
    requires
        old(st).wf(),
    ensures
        final(st).wf(),
        state_view(*final(st)) == state_view(*old(st)).insert(key@, StateView::Number(n)),
{
    put_number(st, key, n);
}

/// Plays a command on a game's state.
fn play(game: &str, command: &str, args: &str, st: &mut GameState) -> (r: Result<String, String>)
    requires
        old(st).wf(),
        reply_fits(game@, command@, args@, state_view(*old(st))),
    ensures
        final(st).wf(),
        match game_reply(game@, command@, args@, state_view(*old(st))) {
            Ok((t, s2)) => r is Ok && r->Ok_0@ == t && state_view(*final(st)) == s2,
            Err(e) => r is Err && r->Err_0@ == e && state_view(*final(st)) == state_view(*old(st)),
        },
{
    if text::str_eq(game, "tradewars2035") {
        if text::str_eq(command, "scan") {
            Ok(String::from_str("Sector 1: Earth - Safe zone with trading posts"))
        } else if text::str_eq(command, "move") {
            match text::parse_u32_str(args) {
                Ok(n) => {
                    set_number(st, "sector", n as u64);
                    let mut r = String::from_str("Moved to sector ");
                    let d = text::decimal_string(n as u64);
                    r.append(d.as_str());
                    Ok(r)
                },
                Err(_) => Err(String::from_str("Invalid sector number")),
            }
        } else if text::str_eq(command, "trade") {
            Ok(String::from_str("Trading post: Ore: 100cr, Food: 50cr, Equipment: 200cr"))
        } else if text::str_eq(command, "attack") {
            Ok(String::from_str("No targets in this sector."))
        } else {
            Ok(String::from_str("Unknown command"))
        }
    } else if text::str_eq(game, "lord2035") {
        if text::str_eq(command, "forest") {
            let fights = get_number(st, "forest_fights");
            if fights > 0 {
                set_number(st, "forest_fights", fights - 1);
                Ok(String::from_str("You encounter a forest monster! *FIGHT* You win! +10 exp, +5 gold"))
            } else {
                Ok(String::from_str("You're too tired to fight more today."))
            }
        } else if text::str_eq(command, "inn") {
            Ok(String::from_str("Welcome to the Inn! Violet greets you warmly."))
        } else if text::str_eq(command, "bank") {
            Ok(String::from_str("Bank: Your account balance is 100 gold."))
        } else if text::str_eq(command, "weapon") {
            Ok(String::from_str("Weapon shop: Dagger (50g), Sword (200g), Axe (500g)"))
        } else {
            Ok(String::from_str("Unknown command"))
        }
    } else if text::str_eq(game, "ai_lounge") {
        if text::str_eq(command, "talk") {
            let mut r = String::from_str("You say: '");
            r.append(args);
            r.append("'");
            Ok(r)
        } else if text::str_eq(command, "compliment") {
            let f = get_number(st, "friendship_level");
            set_number(st, "friendship_level", f + 1);
            Ok(String::from_str("Your compliment makes them smile! Friendship increased."))
        } else if text::str_eq(command, "ask") {
            let mut r = String::from_str("You ask: '");
            r.append(args);
            r.append("'");
            Ok(r)
        } else if text::str_eq(command, "joke") {
            Ok(String::from_str("You tell a joke. They laugh heartily!"))
        } else {
            Ok(String::from_str("Unknown command"))
        }
    } else if text::str_eq(game, "quantum_puzzle") {
        if text::str_eq(command, "solve") {
            if text::str_eq(args, "42") {
                let n = get_number(st, "puzzles_solved");
                set_number(st, "puzzles_solved", n + 1);
                Ok(String::from_str("Correct! The answer to life, universe, and everything!"))
            } else {
                Ok(String::from_str("Incorrect solution. Try again!"))
            }
        } else if text::str_eq(command, "hint") {
            Ok(String::from_str("Hint: Think about Douglas Adams..."))
        } else if text::str_eq(command, "skip") {
            Ok(String::from_str("Puzzle skipped. Moving to next challenge."))
        } else if text::str_eq(command, "analyze") {
            Ok(String::from_str("Quantum analysis reveals hidden patterns in the data."))
        } else {
            Ok(String::from_str("Unknown command"))
        }
    } else {
        Ok(String::from_str("Command executed."))
    }
}

/// The characters as `str::to_lowercase` gives them: Unicode lowercasing,
/// which maps most characters one by one but lowers a final capital sigma
/// by its context. Its tables and rules are not restated; the result is
/// named `lowercase` of the characters.
pub uninterp spec fn lowercase(s: Seq<char>) -> Seq<char>;

#[verifier::external_body]
/// `str::to_lowercase`, named by `lowercase`.
pub(crate) fn to_lowercase(s: &str) -> (r: String)
    ensures
        r@ == lowercase(s@),
{
    s.to_lowercase()
}

/// A trigger word occurs in the reply or in what the user typed, both
/// lowercased.
pub open spec fn trigger_hit(t: Seq<char>, ctx: Seq<char>, input: Seq<char>) -> bool {
    text::contains_sub(lowercase(ctx), t) || text::contains_sub(lowercase(input), t)
}

/// The first trigger word that occurs.
pub open spec fn first_hit(ts: Seq<Seq<char>>, ctx: Seq<char>, input: Seq<char>) -> Option<Seq<char>>
    decreases ts.len(),
{
    if ts.len() == 0 {
        None
    } else if trigger_hit(ts[0], ctx, input) {
        Some(ts[0])
    } else {
        first_hit(ts.drop_first(), ctx, input)
    }
}

/// A pattern's response: its first template, with `{emotion}` replaced by
/// the first trigger word that occurs.
pub open spec fn pattern_reply(p: PatternView, ctx: Seq<char>, input: Seq<char>) -> Option<Seq<char>> {
    if p.templates.len() == 0 {
        None
    } else {
        match first_hit(p.triggers, ctx, input) {
            Some(t) => Some(text::replace_all(p.templates[0], "{emotion}"@, t)),
            None => None,
        }
    }
}

/// The response of the first pattern that has one.
pub open spec fn patterns_reply(ps: Seq<PatternView>, ctx: Seq<char>, input: Seq<char>) -> Option<Seq<char>>
    decreases ps.len(),
{
    if ps.len() == 0 {
        None
    } else {
        match pattern_reply(ps[0], ctx, input) {
            Some(r) => Some(r),
            None => patterns_reply(ps.drop_first(), ctx, input),
        }
    }
}

/// What a personality says after a reply: a pattern's response, or that
/// it is interested; nothing for an unknown personality.
pub open spec fn ai_reply(ai_id: Seq<char>, ctx: Seq<char>, input: Seq<char>) -> Seq<char> {
    if classic_personalities().contains_key(ai_id) {
        let p = classic_personalities()[ai_id];
        match patterns_reply(p.patterns, ctx, input) {
            Some(r) => "\n"@ + p.name + ": "@ + r,
            None => "\n"@ + p.name + ": That's interesting! Tell me more."@,
        }
    } else {
        Seq::empty()
    }
}

/// How a session starts: its id.
pub open spec fn session_id_for(user_id: Seq<char>, now: i64) -> Seq<char> {
    "session_"@ + user_id + "_"@ + text::signed_decimal(now as int)
}

/// The greeting of a game's personality, if it has a known one.
pub open spec fn greeting(g: DoorGameView) -> Seq<char> {
    match g.ai_personality {
        Some(id) => if classic_personalities().contains_key(id) {
            classic_personalities()[id].name + ": "@ + classic_personalities()[id].starters[0]
        } else {
            "Welcome to the game!"@
        },
        None => "Welcome to the game!"@,
    }
}

/// A list of names as `{:?}` prints it.
pub open spec fn debug_list(names: Seq<Seq<char>>) -> Seq<char> {
    "["@ + text::join(names.map_values(|n: Seq<char>| debug_quoted(n)), ", "@) + "]"@
}

/// The names of the commands.
pub open spec fn command_names(cs: Seq<(Seq<char>, Seq<char>, u64)>) -> Seq<Seq<char>> {
    cs.map_values(|c: (Seq<char>, Seq<char>, u64)| c.0)
}

/// The reply to starting a game.
pub open spec fn start_reply(sid: Seq<char>, g: DoorGameView) -> Seq<char> {
    "Session: "@ + sid + "\n"@ + greeting(g) + "\n\nAvailable commands: "@ + debug_list(command_names(g.commands))
}

/// The session a game starts with.
pub open spec fn new_session(user_id: Seq<char>, game_id: Seq<char>, now: i64) -> SessionView {
    let g = classic_games()[game_id];
    SessionView {
        session_id: session_id_for(user_id, now),
        user_id,
        game_id,
        state: g.state,
        turns_taken: 0,
        credits_spent: 0,
        started_at: now as u64,
        last_action: now as u64,
        ai_companion: g.ai_personality,
    }
}

/// The line of a game in the game list.
pub open spec fn game_line(g: DoorGameView) -> Seq<char> {
    g.game_id + ": "@ + g.name + " ("@ + text::decimal(g.credits_per_turn as nat) + " credits/turn)"@
}

/// The games in the order they are listed.
pub open spec fn game_order() -> Seq<Seq<char>> {
    seq!["tradewars2035"@, "lord2035"@, "ai_lounge"@, "quantum_puzzle"@]
}

/// `{:?}` of a list of names.
fn debug_names(cs: &Vec<GameCommand>) -> (r: String)
    ensures
        r@ == debug_list(command_names(commands_view(cs@))),
{
    let ghost names = command_names(commands_view(cs@));
    let ghost quoted = names.map_values(|n: Seq<char>| debug_quoted(n));
    let mut parts: Vec<String> = Vec::new();
    let mut i: usize = 0;
    while i < cs.len()
        invariant
            i <= cs@.len(),
            names == command_names(commands_view(cs@)),
            quoted == names.map_values(|n: Seq<char>| debug_quoted(n)),
            text::string_views(parts@) == quoted.take(i as int),
        decreases cs@.len() - i,
    {
        let q = debug_str(cs[i].command.as_str());
        let ghost before = parts@;
        parts.push(q);
        assert(text::string_views(parts@) =~= text::string_views(before).push(quoted[i as int]));
        assert(quoted.take(i + 1) =~= quoted.take(i as int).push(quoted[i as int]));
        i = i + 1;
    }
    assert(quoted.take(cs@.len() as int) =~= quoted);
    let joined = text::join_strings(&parts, ", ");
    let mut r = String::from_str("[");
    r.append(joined.as_str());
    r.append("]");
    r
}

/// What a companion says after a reply.
pub open spec fn companion_reply(c: Option<Seq<char>>, reply: Seq<char>, args: Seq<char>) -> Seq<char> {
    match c {
        Some(id) => ai_reply(id, reply, args),
        None => Seq::empty(),
    }
}

/// What a command in a session gives: the reply and the session after it,
/// or why it was refused (the session then stays as it was).
pub open spec fn execute_outcome(
    s: Map<Seq<char>, SessionView>,
    sid: Seq<char>,
    command: Seq<char>,
    args: Seq<char>,
    now: i64,
) -> Result<(Seq<char>, SessionView), Seq<char>> {
    if !s.contains_key(sid) {
        Err("Session not found"@)
    } else if !classic_games().contains_key(s[sid].game_id) {
        Err("Game not found"@)
    } else {
        let sess = s[sid];
        match command_cost(classic_games()[sess.game_id].commands, command) {
            None => Err("Invalid command"@),
            Some(cost) => match game_reply(sess.game_id, command, args, sess.state) {
                Err(e) => Err(e),
                Ok((t, st)) => Ok((
                    t + "\n"@ + companion_reply(sess.ai_companion, t, args),
                    SessionView {
                        session_id: sess.session_id,
                        user_id: sess.user_id,
                        game_id: sess.game_id,
                        state: st,
                        turns_taken: (sess.turns_taken + 1) as u32,
                        credits_spent: (sess.credits_spent + cost) as u64,
                        started_at: sess.started_at,
                        last_action: now as u64,
                        ai_companion: sess.ai_companion,
                    },
                )),
            },
        }
    }
}

/// A move to a sector that is not a number is refused.
proof fn lemma_bad_sector_refused(args: Seq<char>, st: Map<Seq<char>, StateView>)
    requires
        text::parse_u32(args) is Err,
    ensures
        game_reply("tradewars2035"@, "move"@, args, st) == Err::<(Seq<char>, Map<Seq<char>, StateView>), Seq<char>>(
            "Invalid sector number"@,
        ),
{
    let g = "tradewars2035"@;
    let c = "move"@;
    assert(c != "scan"@) by {
        reveal_strlit("move");
        reveal_strlit("scan");
        assert(c[0] != "scan"@[0]);
    }
    assert(game_reply(g, c, args, st) is Err);
}

/// Why a command cannot be played, whatever the time: an unknown session,
/// a game that is not offered, a command the game does not have, or a
/// command that its game refuses; `None` where it can be played.
pub open spec fn command_refusal(
    s: Map<Seq<char>, SessionView>,
    sid: Seq<char>,
    command: Seq<char>,
    args: Seq<char>,
) -> Option<Seq<char>> {
    if !s.contains_key(sid) {
        Some("Session not found"@)
    } else if !classic_games().contains_key(s[sid].game_id) {
        Some("Game not found"@)
    } else if command_cost(classic_games()[s[sid].game_id].commands, command) is None {
        Some("Invalid command"@)
    } else {
        match game_reply(s[sid].game_id, command, args, s[sid].state) {
            Err(e) => Some(e),
            Ok(_) => None,
        }
    }
}

/// The counters a command raises stay within their types.
pub open spec fn execute_fits(s: Map<Seq<char>, SessionView>, sid: Seq<char>, command: Seq<char>, args: Seq<char>) -> bool {
    s.contains_key(sid) && classic_games().contains_key(s[sid].game_id) && command_cost(
        classic_games()[s[sid].game_id].commands,
        command,
    ) is Some ==> {
        let sess = s[sid];
        let cost = command_cost(classic_games()[sess.game_id].commands, command)->Some_0;
        &&& reply_fits(sess.game_id, command, args, sess.state)
        &&& game_reply(sess.game_id, command, args, sess.state) is Ok ==> sess.turns_taken < u32::MAX
            && sess.credits_spent + cost <= u64::MAX
    }
}

impl RetroAIServices {
    /// The maps are well formed, the games and personalities are the
    /// classic ones, listed in their order, and every session state is well
    /// formed.
    pub closed spec fn wf(&self) -> bool {
        &&& self.door_games.wf()
        &&& self.ai_personalities.wf()
        &&& self.game_sessions.wf()
        &&& self.high_scores.wf()
        &&& self.user_stats.wf()
        &&& games_view(self.door_games) == classic_games()
        &&& self.door_games.key_seq() == game_order()
        &&& personalities_view(self.ai_personalities) == classic_personalities()
        &&& forall|k: Seq<char>| #[trigger] self.game_sessions@.contains_key(k) ==> self.game_sessions@[k].game_state.wf()
        &&& forall|k: Seq<char>| #[trigger] self.door_games@.contains_key(k) ==> self.door_games@[k].game_state_template.wf()
    }

    /// The sessions, by id.
    pub closed spec fn sessions(&self) -> Map<Seq<char>, SessionView> {
        self.game_sessions@.map_values(|s: GameSession| s@)
    }

    /// The high score lists, by game.
    pub closed spec fn score_lists(&self) -> Map<Seq<char>, Seq<HighScore>> {
        self.high_scores@.map_values(|v: Vec<HighScore>| v@)
    }

    /// The classic games and personalities, no sessions, no scores.
    pub fn new() -> (s: Self)
        ensures
            s.wf(),
            s.sessions() == Map::<Seq<char>, SessionView>::empty(),
            s.score_lists() == Map::<Seq<char>, Seq<HighScore>>::empty(),
    {
        let mut services = RetroAIServices {
            door_games: StrMap::new(),
            ai_personalities: StrMap::new(),
            game_sessions: StrMap::new(),
            high_scores: StrMap::new(),
            user_stats: StrMap::new(),
        };
        services.initialize_classic_games();
        services.initialize_ai_personalities();
        assert(services.sessions() =~= Map::<Seq<char>, SessionView>::empty());
        assert(services.score_lists() =~= Map::<Seq<char>, Seq<HighScore>>::empty());
        services
    }

    /// Adds the four classic games.
    fn initialize_classic_games(&mut self)
        requires
            old(self).door_games.wf(),
            old(self).door_games.key_seq().len() == 0,
        ensures
            final(self).door_games.wf(),
            games_view(final(self).door_games) == classic_games(),
            final(self).door_games.key_seq() == game_order(),
            forall|k: Seq<char>| #[trigger] final(self).door_games@.contains_key(k) ==> final(self).door_games@[k].game_state_template.wf(),
            final(self).ai_personalities == old(self).ai_personalities,
            final(self).game_sessions == old(self).game_sessions,
            final(self).high_scores == old(self).high_scores,
            final(self).user_stats == old(self).user_stats,
    {
        let ghost empty_view = self.door_games@;
        proof {
            self.door_games.lemma_len();
            assert(empty_view =~= Map::<Seq<char>, DoorGame>::empty());
        }
        proof {
            reveal_strlit("tradewars2035");
            reveal_strlit("lord2035");
            reveal_strlit("ai_lounge");
            reveal_strlit("quantum_puzzle");
            assert("tradewars2035"@.len() == 13);
            assert("lord2035"@.len() == 8);
            assert("ai_lounge"@.len() == 9);
            assert("quantum_puzzle"@.len() == 14);
        }
        self.door_games.insert(String::from_str("tradewars2035"), make_tradewars());
        assert(self.door_games.key_seq() =~= seq!["tradewars2035"@]);
        assert(!self.door_games@.contains_key("lord2035"@));
        self.door_games.insert(String::from_str("lord2035"), make_lord());
        assert(self.door_games.key_seq() =~= seq!["tradewars2035"@, "lord2035"@]);
        assert(!self.door_games@.contains_key("ai_lounge"@));
        self.door_games.insert(String::from_str("ai_lounge"), make_lounge());
        assert(!self.door_games@.contains_key("quantum_puzzle"@));
        self.door_games.insert(String::from_str("quantum_puzzle"), make_puzzle());
        assert(games_view(self.door_games) =~= classic_games());
        assert(self.door_games.key_seq() =~= game_order());
    }

    /// Adds the four classic personalities.
    fn initialize_ai_personalities(&mut self)
        requires
            old(self).ai_personalities.wf(),
            old(self).ai_personalities.key_seq().len() == 0,
        ensures
            final(self).ai_personalities.wf(),
            personalities_view(final(self).ai_personalities) == classic_personalities(),
            final(self).door_games == old(self).door_games,
            final(self).game_sessions == old(self).game_sessions,
            final(self).high_scores == old(self).high_scores,
            final(self).user_stats == old(self).user_stats,
    {
        proof {
            self.ai_personalities.lemma_len();
            assert(self.ai_personalities@ =~= Map::<Seq<char>, AIPersonality>::empty());
        }
        self.ai_personalities.insert(String::from_str("eliza_2035"), make_eliza());
        self.ai_personalities.insert(String::from_str("valley_girl"), make_valley_girl());
        self.ai_personalities.insert(String::from_str("space_trader_ai"), make_space_trader());
        self.ai_personalities.insert(String::from_str("quantum_ai"), make_q_bit());
        assert(personalities_view(self.ai_personalities) =~= classic_personalities());
    }

    /// What the personality `ai_id` says after `context`, given what the
    /// user typed.
    fn generate_ai_response(&self, ai_id: &str, context: &str, user_input: &str) -> (r: String)
        requires
            self.wf(),
        ensures
            r@ == ai_reply(ai_id@, context@, user_input@),
    {
        match self.ai_personalities.get(ai_id) {
            None => {
                assert(!classic_personalities().contains_key(ai_id@));
                String::new()
            },
            Some(ai) => {
                assert(ai@ == classic_personalities()[ai_id@]);
                let ctx = to_lowercase(context);
                let inp = to_lowercase(user_input);
                let ghost ps = ai@.patterns;
                let mut i: usize = 0;
                assert(ps.skip(0) =~= ps);
                while i < ai.response_patterns.len()
                    invariant
                        i <= ai.response_patterns@.len(),
                        ps == ai.response_patterns@.map_values(|p: ResponsePattern| p@),
                        classic_personalities().contains_key(ai_id@),
                        ai@ == classic_personalities()[ai_id@],
                        ctx@ == lowercase(context@),
                        inp@ == lowercase(user_input@),
                        patterns_reply(ps, context@, user_input@) == patterns_reply(ps.skip(i as int), context@, user_input@),
                    decreases ai.response_patterns@.len() - i,
                {
                    let pattern = &ai.response_patterns[i];
                    let ghost pv = pattern@;
                    assert(ps.skip(i as int)[0] == pv);
                    assert(ps.skip(i as int).drop_first() =~= ps.skip(i + 1));
                    let ghost ts = pv.triggers;
                    let n_triggers: usize = if pattern.response_templates.len() > 0 {
                        pattern.trigger_words.len()
                    } else {
                        0
                    };
                    let mut j: usize = 0;
                    assert(ts.skip(0) =~= ts);
                    while j < n_triggers
                        invariant
                            n_triggers == 0 || n_triggers == pattern.trigger_words@.len(),
                            i < ps.len(),
                            ps == ai.response_patterns@.map_values(|p: ResponsePattern| p@),
                            ps.skip(i as int)[0] == pv,
                            ps.skip(i as int).len() > 0,
                            classic_personalities().contains_key(ai_id@),
                            ai@ == classic_personalities()[ai_id@],
                            patterns_reply(ps, context@, user_input@) == patterns_reply(ps.skip(i as int), context@, user_input@),
                            n_triggers > 0 ==> pattern.response_templates@.len() > 0,
                            j <= n_triggers,
                            pv == pattern@,
                            ts == pv.triggers,
                            ctx@ == lowercase(context@),
                            inp@ == lowercase(user_input@),
                            first_hit(ts, context@, user_input@) == first_hit(ts.skip(j as int), context@, user_input@),
                        decreases pattern.trigger_words@.len() - j,
                    {
                        let trigger = &pattern.trigger_words[j];
                        assert(ts.skip(j as int)[0] == trigger@);
                        assert(ts.skip(j as int).drop_first() =~= ts.skip(j + 1));
                        if text::contains_str(ctx.as_str(), trigger.as_str()) || text::contains_str(
                            inp.as_str(),
                            trigger.as_str(),
                        ) {
                            {
                                proof {
                                    reveal_strlit("{emotion}");
                                }
                                let replaced = text::replace_str(
                                    pattern.response_templates[0].as_str(),
                                    "{emotion}",
                                    trigger.as_str(),
                                );
                                proof {
                                    let tail = ts.skip(j as int);
                                    assert(trigger_hit(tail[0], context@, user_input@));
                                    assert(first_hit(tail, context@, user_input@) == Some(trigger@));
                                    assert(pv.templates[0] == pattern.response_templates@[0]@);
                                    assert(pattern_reply(pv, context@, user_input@) == Some(
                                        text::replace_all(pv.templates[0], "{emotion}"@, trigger@),
                                    ));
                                    assert(patterns_reply(ps.skip(i as int), context@, user_input@) == Some(
                                        text::replace_all(pv.templates[0], "{emotion}"@, trigger@),
                                    ));
                                }
                                let mut r = String::from_str("\n");
                                r.append(ai.name.as_str());
                                r.append(": ");
                                r.append(replaced.as_str());
                                return r;
                            }
                        }
                        j = j + 1;
                    }
                    if n_triggers > 0 {
                        assert(ts.skip(j as int) =~= Seq::<Seq<char>>::empty());
                    }
                    i = i + 1;
                }
                assert(ps.skip(i as int) =~= Seq::<PatternView>::empty());
                let mut r = String::from_str("\n");
                r.append(ai.name.as_str());
                r.append(": That's interesting! Tell me more.");
                r
            },
        }
    }

    /// Starts `game_id` for `user_id` at time `now`: the session is kept under
    /// its id and the reply names it, greets the player and lists the
    /// commands. An unknown game is refused.
    pub fn start_game_at(&mut self, user_id: &str, game_id: &str, now: i64) -> (r: Result<String, String>)
        requires
            old(self).wf(),
        ensures
            final(self).wf(),
            final(self).score_lists() == old(self).score_lists(),
            !classic_games().contains_key(game_id@) ==> r is Err && r->Err_0@ == "Game not found"@
                && final(self).sessions() == old(self).sessions(),
            classic_games().contains_key(game_id@) ==> r is Ok && r->Ok_0@ == start_reply(
                session_id_for(user_id@, now),
                classic_games()[game_id@],
            ) && final(self).sessions() == old(self).sessions().insert(
                session_id_for(user_id@, now),
                new_session(user_id@, game_id@, now),
            ),
    {
        let game = match self.door_games.get(game_id) {
            Some(g) => g,
            None => {
                return Err(String::from_str("Game not found"));
            },
        };
        assert(game@ == classic_games()[game_id@]);
        let stamp = text::signed_decimal_string(now);
        let mut sid = String::from_str("session_");
        sid.append(user_id);
        sid.append("_");
        sid.append(stamp.as_str());
        let state = copy_state(&game.game_state_template);
        let greeting = match &game.ai_personality {
            Some(ai_id) => match self.ai_personalities.get(ai_id.as_str()) {
                Some(ai) => {
                    assert(ai@ == classic_personalities()[ai_id@]);
                    proof {
                        lemma_starters(ai_id@);
                    }
                    let mut g = ai.name.clone();
                    g.append(": ");
                    g.append(ai.conversation_starters[0].as_str());
                    g
                },
                None => String::from_str("Welcome to the game!"),
            },
            None => String::from_str("Welcome to the game!"),
        };
        let commands = debug_names(&game.commands);
        let session = GameSession {
            session_id: sid.clone(),
            user_id: String::from_str(user_id),
            game_id: String::from_str(game_id),
            game_state: state,
            turns_taken: 0,
            credits_spent: 0,
            started_at: now as u64,
            last_action: now as u64,
            ai_companion: copy_opt(&game.ai_personality),
        };
        let mut reply = String::from_str("Session: ");
        reply.append(sid.as_str());
        reply.append("\n");
        reply.append(greeting.as_str());
        reply.append("\n\nAvailable commands: ");
        reply.append(commands.as_str());
        let ghost before = self.sessions();
        let ghost sv = session@;
        self.game_sessions.insert(sid, session);
        assert(self.sessions() =~= before.insert(session_id_for(user_id@, now), sv));
        Ok(reply)
    }

    /// Finds `command_refusal`.
    fn refusal_of_command(&self, session_id: &str, command: &str, args: &str) -> (r: Option<String>)
        requires
            self.wf(),
        ensures
            match r {
                Some(e) => command_refusal(self.sessions(), session_id@, command@, args@) == Some(e@),
                None => command_refusal(self.sessions(), session_id@, command@, args@) is None,
            },
    {
        let idx = match self.game_sessions.find(session_id) {
            Some(i) => i,
            None => {
                return Some(String::from_str("Session not found"));
            },
        };
        proof {
            self.game_sessions.lemma_entry(idx as int);
        }
        let game_id = self.game_sessions.value_at(idx).game_id.as_str();
        match self.door_games.get(game_id) {
            None => {
                return Some(String::from_str("Game not found"));
            },
            Some(g) => {
                assert(g@ == classic_games()[game_id@]);
                if find_command(&g.commands, command).is_none() {
                    return Some(String::from_str("Invalid command"));
                }
            },
        }
        if text::str_eq(game_id, "tradewars2035") && text::str_eq(command, "move") && text::parse_u32_str(
            args,
        ).is_err() {
            proof {
                let sv = self.sessions()[session_id@];
                assert(sv.game_id == game_id@);
                lemma_bad_sector_refused(args@, sv.state);
            }
            return Some(String::from_str("Invalid sector number"));
        }
        None
    }

    /// Plays `command` with `args` in a session at time `now`; see
    /// `execute_outcome`.
    pub fn execute_command_at(&mut self, session_id: &str, command: &str, args: &str, now: i64) -> (r: Result<String, String>)
        requires
            old(self).wf(),
            execute_fits(old(self).sessions(), session_id@, command@, args@),
        ensures
            final(self).wf(),
            final(self).score_lists() == old(self).score_lists(),
            match execute_outcome(old(self).sessions(), session_id@, command@, args@, now) {
                Err(e) => r is Err && r->Err_0@ == e && final(self).sessions() == old(self).sessions(),
                Ok((t, sv)) => r is Ok && r->Ok_0@ == t && final(self).sessions() == old(self).sessions().insert(
                    session_id@,
                    sv,
                ),
            },
    {
        let ghost before = self.sessions();
        let idx = match self.game_sessions.find(session_id) {
            Some(i) => i,
            None => {
                return Err(String::from_str("Session not found"));
            },
        };
        proof {
            self.game_sessions.lemma_entry(idx as int);
        }
        let game_id = self.game_sessions.value_at(idx).game_id.clone();
        let cost = match self.door_games.get(game_id.as_str()) {
            None => {
                return Err(String::from_str("Game not found"));
            },
            Some(g) => {
                assert(g@ == classic_games()[game_id@]);
                match find_command(&g.commands, command) {
                    None => {
                        return Err(String::from_str("Invalid command"));
                    },
                    Some(c) => c,
                }
            },
        };
        let companion = copy_opt(&self.game_sessions.value_at(idx).ai_companion);
        let ghost pre = self.game_sessions;
        let ghost old_sess = self.game_sessions.val_seq()[idx as int];
        let sess = self.game_sessions.value_mut_at(idx);
        let reply = play(game_id.as_str(), command, args, &mut sess.game_state);
        let text = match reply {
            Err(e) => {
                proof {
                    pre.lemma_update_at(&self.game_sessions, idx as int, self.game_sessions.val_seq()[idx as int]);
                    assert(self.sessions() =~= before);
                }
                return Err(e);
            },
            Ok(t) => t,
        };
        sess.turns_taken = sess.turns_taken + 1;
        sess.credits_spent = sess.credits_spent + cost;
        sess.last_action = now as u64;
        proof {
            pre.lemma_update_at(&self.game_sessions, idx as int, self.game_sessions.val_seq()[idx as int]);
        }
        let ai = match &companion {
            Some(id) => self.generate_ai_response(id.as_str(), text.as_str(), args),
            None => String::new(),
        };
        let mut out = text;
        out.append("\n");
        out.append(ai.as_str());
        proof {
            let sv = self.game_sessions.val_seq()[idx as int]@;
            assert(self.sessions() =~= before.insert(session_id@, sv));
        }
        Ok(out)
    }

    /// Plays a command now, by the system clock.
    pub fn execute_command(&mut self, session_id: &str, command: &str, args: &str) -> (r: Result<String, String>)
        requires
            old(self).wf(),
            execute_fits(old(self).sessions(), session_id@, command@, args@),
        ensures
            final(self).wf(),
            final(self).score_lists() == old(self).score_lists(),
            match command_refusal(old(self).sessions(), session_id@, command@, args@) {
                Some(e) => r is Err && r->Err_0@ == e && *final(self) == *old(self),
                None => (r matches Err(e) && e@ == crate::clock::clock_error() && *final(self) == *old(self))
                    || exists|now: i64|
                    match #[trigger] execute_outcome(old(self).sessions(), session_id@, command@, args@, now) {
                        Err(e) => r is Err && r->Err_0@ == e && final(self).sessions() == old(self).sessions(),
                        Ok((t, sv)) => r is Ok && r->Ok_0@ == t && final(self).sessions()
                            == old(self).sessions().insert(session_id@, sv),
                    },
            },
    {
        if let Some(e) = self.refusal_of_command(session_id, command, args) {
            return Err(e);
        }
        let now = match crate::clock::unix_timestamp() {
            Ok(t) => t,
            Err(e) => {
                return Err(e);
            },
        };
        self.execute_command_at(session_id, command, args, now)
    }

    /// Starts a game now, by the system clock.
    pub fn start_game(&mut self, user_id: &str, game_id: &str) -> (r: Result<String, String>)
        requires
            old(self).wf(),
        ensures
            final(self).wf(),
            final(self).score_lists() == old(self).score_lists(),
            !classic_games().contains_key(game_id@) ==> r is Err && r->Err_0@ == "Game not found"@
                && *final(self) == *old(self),
            classic_games().contains_key(game_id@) ==> (r matches Err(e) && e@ == crate::clock::clock_error()
                && *final(self) == *old(self)) || exists|now: i64|
                r is Ok && r->Ok_0@ == start_reply(#[trigger] session_id_for(user_id@, now), classic_games()[game_id@])
                    && final(self).sessions() == old(self).sessions().insert(
                    session_id_for(user_id@, now),
                    new_session(user_id@, game_id@, now),
                ),
    {
        if !self.door_games.contains_key(game_id) {
            return Err(String::from_str("Game not found"));
        }
        let now = match crate::clock::unix_timestamp() {
            Ok(t) => t,
            Err(e) => {
                return Err(e);
            },
        };
        self.start_game_at(user_id, game_id, now)
    }

    /// The session kept under `session_id`.
    pub fn get_session(&self, session_id: &str) -> (r: Option<&GameSession>)
        requires
            self.wf(),
        ensures
            match r {
                Some(sess) => self.sessions().contains_key(session_id@) && sess@ == self.sessions()[session_id@],
                None => !self.sessions().contains_key(session_id@),
            },
    {
        self.game_sessions.get(session_id)
    }

    /// One line per game, in catalogue order: id, name and credits per turn.
    pub fn get_game_list(&self) -> (r: Vec<String>)
        requires
            self.wf(),
        ensures
            text::string_views(r@) == game_order().map_values(|id: Seq<char>| game_line(classic_games()[id])),
    {
        let ghost want = game_order().map_values(|id: Seq<char>| game_line(classic_games()[id]));
        proof {
            self.door_games.lemma_len();
        }
        let n = self.door_games.len();
        let mut r: Vec<String> = Vec::new();
        let mut i: usize = 0;
        while i < n
            invariant
                self.wf(),
                n == game_order().len(),
                want == game_order().map_values(|id: Seq<char>| game_line(classic_games()[id])),
                i <= n,
                text::string_views(r@) == want.take(i as int),
            decreases n - i,
        {
            let game = self.door_games.value_at(i);
            proof {
                self.door_games.lemma_entry(i as int);
                assert(game@ == classic_games()[game_order()[i as int]]);
            }
            let mut line = game.game_id.clone();
            line.append(": ");
            line.append(game.name.as_str());
            line.append(" (");
            let d = text::decimal_string(game.credits_per_turn);
            line.append(d.as_str());
            line.append(" credits/turn)");
            proof {
                lemma_game_id(game_order()[i as int]);
            }
            let ghost before = r@;
            r.push(line);
            assert(text::string_views(r@) =~= text::string_views(before).push(want[i as int]));
            assert(want.take(i + 1) =~= want.take(i as int).push(want[i as int]));
            i = i + 1;
        }
        assert(want.take(n as int) =~= want);
        r
    }

    /// The high scores of a game, none for a game without any.
    pub fn get_high_scores(&self, game_id: &str) -> (r: Vec<&HighScore>)
        requires
            self.wf(),
        ensures
            self.score_lists().contains_key(game_id@) ==> r@.map_values(|h: &HighScore| *h) == self.score_lists()[game_id@],
            !self.score_lists().contains_key(game_id@) ==> r@.len() == 0,
    {
        let mut r: Vec<&HighScore> = Vec::new();
        match self.high_scores.get(game_id) {
            None => r,
            Some(scores) => {
                let mut i: usize = 0;
                while i < scores.len()
                    invariant
                        i <= scores@.len(),
                        r@.map_values(|h: &HighScore| *h) == scores@.take(i as int),
                    decreases scores@.len() - i,
                {
                    let ghost before = r@;
                    r.push(&scores[i]);
                    assert(r@.map_values(|h: &HighScore| *h) =~= before.map_values(|h: &HighScore| *h).push(scores@[i as int]));
                    assert(scores@.take(i + 1) =~= scores@.take(i as int).push(scores@[i as int]));
                    assert(r@.map_values(|h: &HighScore| *h) =~= scores@.take(i + 1));
                    i = i + 1;
                }
                assert(scores@.take(scores@.len() as int) =~= scores@);
                r
            },
        }
    }
}

/// A classic game's id is its key.
proof fn lemma_game_id(k: Seq<char>)
    requires
        classic_games().contains_key(k),
    ensures
        classic_games()[k].game_id == k,
{
}

} // verus!
