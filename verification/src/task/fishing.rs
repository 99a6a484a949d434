//! Baits, fish kinds and the fishing rules that do not touch the screen.

use vstd::prelude::*;

use crate::navigate::error::NavigateError;
use crate::text::{chars_of, str_eq};

verus! {

broadcast use vstd::string::group_string_axioms;

/// A fishing bait.
#[derive(Debug, Clone, Copy, PartialEq, Eq, Hash, Structural)]
pub enum BaitType {
    FruitPasteBait,
    RedrotBait,
    FalseWormBait,
    FakeFlyBait,
    SugardewBait,
    SourBait,
    FlashingMaintenanceMekBait,
    SpinelgrainBait,
    EmberglowBait,
    BerryBait,
    RefreshingLakkaBait,
}

/// The Chinese name a bait is shown with.
pub open spec fn bait_chinese_name(b: BaitType) -> Seq<char> {
    match b {
        BaitType::FruitPasteBait => "果酿饵"@,
        BaitType::RedrotBait => "赤糜饵"@,
        BaitType::FalseWormBait => "蠕虫假饵"@,
        BaitType::FakeFlyBait => "飞蝇假饵"@,
        BaitType::SugardewBait => "甘露饵"@,
        BaitType::SourBait => "酸桔饵"@,
        BaitType::FlashingMaintenanceMekBait => "维护机关频闪诱饵"@,
        BaitType::SpinelgrainBait => "澄晶果粒饵"@,
        BaitType::EmberglowBait => "温火饵"@,
        BaitType::BerryBait => "槲梭饵"@,
        BaitType::RefreshingLakkaBait => "清白饵"@,
    }
}

/// Every bait, in declaration order.
pub open spec fn all_baits() -> Seq<BaitType> {
    seq![BaitType::FruitPasteBait, BaitType::RedrotBait, BaitType::FalseWormBait, BaitType::FakeFlyBait, BaitType::SugardewBait, BaitType::SourBait, BaitType::FlashingMaintenanceMekBait, BaitType::SpinelgrainBait, BaitType::EmberglowBait, BaitType::BerryBait, BaitType::RefreshingLakkaBait] 
}

impl BaitType {
    /// The Chinese name the bait is shown with.
    pub fn chinese_name(self) -> (s: &'static str)
        ensures
            s@ == bait_chinese_name(self),
    {
        match self {
            BaitType::FruitPasteBait => "果酿饵",
            BaitType::RedrotBait => "赤糜饵",
            BaitType::FalseWormBait => "蠕虫假饵",
            BaitType::FakeFlyBait => "飞蝇假饵",
            BaitType::SugardewBait => "甘露饵",
            BaitType::SourBait => "酸桔饵",
            BaitType::FlashingMaintenanceMekBait => "维护机关频闪诱饵",
            BaitType::SpinelgrainBait => "澄晶果粒饵",
            BaitType::EmberglowBait => "温火饵",
            BaitType::BerryBait => "槲梭饵",
            BaitType::RefreshingLakkaBait => "清白饵",
        }
    }

    /// The bait shown with the Chinese name `s`.
    pub fn from_chinese_name(s: &str) -> (r: Option<Self>)
        ensures
            match r {
                Some(b) => bait_chinese_name(b) == s@,
                None => forall|b: BaitType| bait_chinese_name(b) != s@,
            },
    {
        if str_eq(s, "果酿饵") {
            Some(BaitType::FruitPasteBait)
        } else if str_eq(s, "赤糜饵") {
            Some(BaitType::RedrotBait)
        } else if str_eq(s, "蠕虫假饵") {
            Some(BaitType::FalseWormBait)
        } else if str_eq(s, "飞蝇假饵") {
            Some(BaitType::FakeFlyBait)
        } else if str_eq(s, "甘露饵") {
            Some(BaitType::SugardewBait)
        } else if str_eq(s, "酸桔饵") {
            Some(BaitType::SourBait)
        } else if str_eq(s, "维护机关频闪诱饵") {
            Some(BaitType::FlashingMaintenanceMekBait)
        } else if str_eq(s, "澄晶果粒饵") {
            Some(BaitType::SpinelgrainBait)
        } else if str_eq(s, "温火饵") {
            Some(BaitType::EmberglowBait)
        } else if str_eq(s, "槲梭饵") {
            Some(BaitType::BerryBait)
        } else if str_eq(s, "清白饵") {
            Some(BaitType::RefreshingLakkaBait)
        } else {
            None
        }
    }
}

/// No two baits share a Chinese name, so reading back a bait's name gives that bait.
pub proof fn lemma_bait_names_distinct(a: BaitType, b: BaitType)
    requires
        bait_chinese_name(a) == bait_chinese_name(b),
    ensures
        a == b,
{
    reveal_strlit("果酿饵");
    reveal_strlit("赤糜饵");
    reveal_strlit("蠕虫假饵");
    reveal_strlit("飞蝇假饵");
    reveal_strlit("甘露饵");
    reveal_strlit("酸桔饵");
    reveal_strlit("维护机关频闪诱饵");
    reveal_strlit("澄晶果粒饵");
    reveal_strlit("温火饵");
    reveal_strlit("槲梭饵");
    reveal_strlit("清白饵");
    assert("果酿饵"@[0] == '果');
    assert("赤糜饵"@[0] == '赤');
    assert("蠕虫假饵"@[0] == '蠕');
    assert("飞蝇假饵"@[0] == '飞');
    assert("甘露饵"@[0] == '甘');
    assert("酸桔饵"@[0] == '酸');
    assert("维护机关频闪诱饵"@[0] == '维');
    assert("澄晶果粒饵"@[0] == '澄');
    assert("温火饵"@[0] == '温');
    assert("槲梭饵"@[0] == '槲');
    assert("清白饵"@[0] == '清');
}


/// A kind of fish that can be caught, with the bait it takes.
#[derive(Debug, Clone, Copy, PartialEq, Eq)]
pub struct BigFishType {
    /// The name the detector labels it with.
    pub name: &'static str,
    pub bait: BaitType,
    pub chinese_name: &'static str,
    /// The row of the casting model that serves this fish.
    pub net_index: u8,
}

/// A fish kind with its names as characters.
pub struct FishKind {
    pub name: Seq<char>,
    pub bait: BaitType,
    pub chinese_name: Seq<char>,
    pub net_index: u8,
}

impl View for BigFishType {
    type V = FishKind;

    open spec fn view(&self) -> FishKind {
        FishKind {
            name: self.name@,
            bait: self.bait,
            chinese_name: self.chinese_name@,
            net_index: self.net_index,
        }
    }
}

/// The fish kinds the library knows, in table order.
pub open spec fn big_fish_table() -> Seq<FishKind> {
    seq![
        FishKind { name: "medaka"@, bait: BaitType::FruitPasteBait, chinese_name: "花鳉"@, net_index: 0 },
        FishKind { name: "large medaka"@, bait: BaitType::FruitPasteBait, chinese_name: "大花鳉"@, net_index: 1 },
        FishKind { name: "stickleback"@, bait: BaitType::RedrotBait, chinese_name: "棘鱼"@, net_index: 2 },
        FishKind { name: "koi"@, bait: BaitType::FakeFlyBait, chinese_name: "假龙"@, net_index: 3 },
        FishKind { name: "koi head"@, bait: BaitType::FakeFlyBait, chinese_name: "假龙头"@, net_index: 3 },
        FishKind { name: "butterflyfish"@, bait: BaitType::FalseWormBait, chinese_name: "蝶鱼"@, net_index: 4 },
        FishKind { name: "pufferfish"@, bait: BaitType::FakeFlyBait, chinese_name: "炮鲀"@, net_index: 5 },
        FishKind { name: "ray"@, bait: BaitType::FakeFlyBait, chinese_name: "鳐"@, net_index: 6 },
        FishKind { name: "angler"@, bait: BaitType::SugardewBait, chinese_name: "角鲀"@, net_index: 7 },
        FishKind { name: "axe marlin"@, bait: BaitType::SugardewBait, chinese_name: "斧枪鱼"@, net_index: 8 },
        FishKind { name: "heartfeather bass"@, bait: BaitType::SourBait, chinese_name: "心羽鲈"@, net_index: 9 },
        FishKind { name: "maintenance mek"@, bait: BaitType::FlashingMaintenanceMekBait, chinese_name: "维护机关"@, net_index: 10 },
        FishKind { name: "unihornfish"@, bait: BaitType::SpinelgrainBait, chinese_name: "独角鱼"@, net_index: 10 },
        FishKind { name: "sunfish"@, bait: BaitType::SpinelgrainBait, chinese_name: "翻车鲀"@, net_index: 7 },
        FishKind { name: "rapidfish"@, bait: BaitType::SpinelgrainBait, chinese_name: "斗士急流鱼"@, net_index: 9 },
        FishKind { name: "phony unihornfish"@, bait: BaitType::EmberglowBait, chinese_name: "燃素独角鱼"@, net_index: 10 },
        FishKind { name: "magma rapidfish"@, bait: BaitType::EmberglowBait, chinese_name: "炽岩斗士急流鱼"@, net_index: 9 },
        FishKind { name: "secret source"@, bait: BaitType::EmberglowBait, chinese_name: "秘源机关・巡戒使"@, net_index: 9 },
        FishKind { name: "mauler shark"@, bait: BaitType::RefreshingLakkaBait, chinese_name: "凶凶鲨"@, net_index: 9 },
        FishKind { name: "crystal eye"@, bait: BaitType::RefreshingLakkaBait, chinese_name: "明眼鱼"@, net_index: 9 },
        FishKind { name: "axehead"@, bait: BaitType::BerryBait, chinese_name: "巨斧鱼"@, net_index: 9 },
    ]
}

/// The fish kinds the library knows, in table order.
pub fn big_fish_types() -> (v: Vec<BigFishType>)
    ensures
        v@.len() == big_fish_table().len(),
        forall|i: int| 0 <= i < v@.len() ==> (#[trigger] v@[i])@ == big_fish_table()[i],
{
    let v = vec![
        BigFishType { name: "medaka", bait: BaitType::FruitPasteBait, chinese_name: "花鳉", net_index: 0 },
        BigFishType { name: "large medaka", bait: BaitType::FruitPasteBait, chinese_name: "大花鳉", net_index: 1 },
        BigFishType { name: "stickleback", bait: BaitType::RedrotBait, chinese_name: "棘鱼", net_index: 2 },
        BigFishType { name: "koi", bait: BaitType::FakeFlyBait, chinese_name: "假龙", net_index: 3 },
        BigFishType { name: "koi head", bait: BaitType::FakeFlyBait, chinese_name: "假龙头", net_index: 3 },
        BigFishType { name: "butterflyfish", bait: BaitType::FalseWormBait, chinese_name: "蝶鱼", net_index: 4 },
        BigFishType { name: "pufferfish", bait: BaitType::FakeFlyBait, chinese_name: "炮鲀", net_index: 5 },
        BigFishType { name: "ray", bait: BaitType::FakeFlyBait, chinese_name: "鳐", net_index: 6 },
        BigFishType { name: "angler", bait: BaitType::SugardewBait, chinese_name: "角鲀", net_index: 7 },
        BigFishType { name: "axe marlin", bait: BaitType::SugardewBait, chinese_name: "斧枪鱼", net_index: 8 },
        BigFishType { name: "heartfeather bass", bait: BaitType::SourBait, chinese_name: "心羽鲈", net_index: 9 },
        BigFishType { name: "maintenance mek", bait: BaitType::FlashingMaintenanceMekBait, chinese_name: "维护机关", net_index: 10 },
        BigFishType { name: "unihornfish", bait: BaitType::SpinelgrainBait, chinese_name: "独角鱼", net_index: 10 },
        BigFishType { name: "sunfish", bait: BaitType::SpinelgrainBait, chinese_name: "翻车鲀", net_index: 7 },
        BigFishType { name: "rapidfish", bait: BaitType::SpinelgrainBait, chinese_name: "斗士急流鱼", net_index: 9 },
        BigFishType { name: "phony unihornfish", bait: BaitType::EmberglowBait, chinese_name: "燃素独角鱼", net_index: 10 },
        BigFishType { name: "magma rapidfish", bait: BaitType::EmberglowBait, chinese_name: "炽岩斗士急流鱼", net_index: 9 },
        BigFishType { name: "secret source", bait: BaitType::EmberglowBait, chinese_name: "秘源机关・巡戒使", net_index: 9 },
        BigFishType { name: "mauler shark", bait: BaitType::RefreshingLakkaBait, chinese_name: "凶凶鲨", net_index: 9 },
        BigFishType { name: "crystal eye", bait: BaitType::RefreshingLakkaBait, chinese_name: "明眼鱼", net_index: 9 },
        BigFishType { name: "axehead", bait: BaitType::BerryBait, chinese_name: "巨斧鱼", net_index: 9 },
    ];
    assert(v@.len() == big_fish_table().len());
    v
}

/// `s` with every `_` turned into a space.
pub open spec fn underscores_to_spaces(s: Seq<char>) -> Seq<char> {
    s.map_values(|c: char| if c == '_' { ' ' } else { c })
}

/// The first fish kind of `tbl` whose name is `a` or `b`.
pub open spec fn first_fish_named(tbl: Seq<FishKind>, a: Seq<char>, b: Seq<char>) -> Option<FishKind>
    decreases tbl.len(),
{
    if tbl.len() == 0 {
        None
    } else if tbl[0].name == a || tbl[0].name == b {
        Some(tbl[0])
    } else {
        first_fish_named(tbl.drop_first(), a, b)
    }
}

/// `v` with every `_` turned into a space.
pub(crate) fn replace_underscores(v: &Vec<char>) -> (t: Vec<char>)
    ensures
        t@ == underscores_to_spaces(v@),
{
    let mut t: Vec<char> = Vec::new();
    let mut k: usize = 0;
    while k < v.len()
        invariant
            0 <= k <= v.len(),
            t@ == underscores_to_spaces(v@.take(k as int)),
        decreases v.len() - k,
    {
        let c = v[k];
        t.push(
            if c == '_' {
                ' '
            } else {
                c
            },
        );
        assert(underscores_to_spaces(v@.take(k + 1)) =~= underscores_to_spaces(v@.take(k as int)).push(
            if c == '_' {
                ' '
            } else {
                c
            },
        ));
        k = k + 1;
    }
    assert(v@.take(k as int) =~= v@);
    t
}

impl BigFishType {
    /// The fish kind the detector label `name` stands for; the label may
    /// write spaces as underscores.
    pub fn from_name(name: &str) -> (r: Option<BigFishType>)
        ensures
            match r {
                Some(f) => first_fish_named(big_fish_table(), name@, underscores_to_spaces(name@))
                    == Some(f@),
                None => first_fish_named(big_fish_table(), name@, underscores_to_spaces(name@)) is None,
            },
    {
        let chars = chars_of(name);
        let norm = replace_underscores(&chars);
        let table = big_fish_types();
        let ghost tbl = big_fish_table();
        let ghost a = name@;
        let ghost b = underscores_to_spaces(name@);
        let mut i: usize = 0;
        assert(tbl.skip(0) =~= tbl);
        while i < table.len()
            invariant
                table@.len() == tbl.len(),
                forall|k: int| 0 <= k < table@.len() ==> (#[trigger] table@[k])@ == tbl[k],
                a == name@,
                b == underscores_to_spaces(name@),
                tbl == big_fish_table(),
                norm@ == b,
                0 <= i <= table@.len(),
                first_fish_named(tbl, a, b) == first_fish_named(tbl.skip(i as int), a, b),
            decreases table@.len() - i,
        {
            let f = table[i];
            let ghost rest = tbl.skip(i as int);
            assert(rest[0] == tbl[i as int]);
            assert(rest.drop_first() =~= tbl.skip(i + 1));
            assert(f@ == tbl[i as int]);
            assert(first_fish_named(rest, a, b) == if rest[0].name == a || rest[0].name == b {
                Some(rest[0])
            } else {
                first_fish_named(rest.drop_first(), a, b)
            });
            let hit_name = str_eq(f.name, name);
            let hit_norm = crate::text::chars_eq_str(&norm, f.name);
            if hit_name || hit_norm {
                return Some(f);
            }
            i = i + 1;
        }
        None
    }
}

/// Table names are distinct and hold no underscore, so looking up the name
/// of a table entry gives that entry.
pub proof fn lemma_fish_lookup_by_table_name(i: int)
    requires
        0 <= i < big_fish_table().len(),
    ensures
        first_fish_named(
            big_fish_table(),
            big_fish_table()[i].name,
            underscores_to_spaces(big_fish_table()[i].name),
        ) == Some(big_fish_table()[i]),
{
    reveal_strlit("medaka");
    reveal_strlit("large medaka");
    reveal_strlit("stickleback");
    reveal_strlit("koi");
    reveal_strlit("koi head");
    reveal_strlit("butterflyfish");
    reveal_strlit("pufferfish");
    reveal_strlit("ray");
    reveal_strlit("angler");
    reveal_strlit("axe marlin");
    reveal_strlit("heartfeather bass");
    reveal_strlit("maintenance mek");
    reveal_strlit("unihornfish");
    reveal_strlit("sunfish");
    reveal_strlit("rapidfish");
    reveal_strlit("phony unihornfish");
    reveal_strlit("magma rapidfish");
    reveal_strlit("secret source");
    reveal_strlit("mauler shark");
    reveal_strlit("crystal eye");
    reveal_strlit("axehead");
    assert("medaka"@.len() == 6 && "medaka"@[0] == 'm' && "medaka"@[0] == 'm');
    assert("large medaka"@.len() == 12 && "large medaka"@[0] == 'l' && "large medaka"@[0] == 'l');
    assert("stickleback"@.len() == 11 && "stickleback"@[0] == 's' && "stickleback"@[0] == 's');
    assert("koi"@.len() == 3 && "koi"@[0] == 'k' && "koi"@[0] == 'k');
    assert("koi head"@.len() == 8 && "koi head"@[0] == 'k');
    assert("butterflyfish"@.len() == 13 && "butterflyfish"@[0] == 'b' && "butterflyfish"@[0] == 'b');
    assert("pufferfish"@.len() == 10 && "pufferfish"@[0] == 'p' && "pufferfish"@[0] == 'p');
    assert("ray"@.len() == 3 && "ray"@[0] == 'r' && "ray"@[0] == 'r');
    assert("angler"@.len() == 6 && "angler"@[0] == 'a' && "angler"@[0] == 'a');
    assert("axe marlin"@.len() == 10 && "axe marlin"@[0] == 'a' && "axe marlin"@[0] == 'a');
    assert("heartfeather bass"@.len() == 17 && "heartfeather bass"@[0] == 'h' && "heartfeather bass"@[0] == 'h');
    assert("maintenance mek"@.len() == 15 && "maintenance mek"@[0] == 'm' && "maintenance mek"@[2] == 'i');
    assert("unihornfish"@.len() == 11 && "unihornfish"@[0] == 'u' && "unihornfish"@[0] == 'u');
    assert("sunfish"@.len() == 7 && "sunfish"@[0] == 's' && "sunfish"@[0] == 's');
    assert("rapidfish"@.len() == 9 && "rapidfish"@[0] == 'r');
    assert("phony unihornfish"@.len() == 17 && "phony unihornfish"@[0] == 'p' && "phony unihornfish"@[0] == 'p');
    assert("magma rapidfish"@.len() == 15 && "magma rapidfish"@[0] == 'm' && "magma rapidfish"@[2] == 'g');
    assert("secret source"@.len() == 13 && "secret source"@[0] == 's' && "secret source"@[0] == 's');
    assert("mauler shark"@.len() == 12 && "mauler shark"@[0] == 'm' && "mauler shark"@[0] == 'm');
    assert("crystal eye"@.len() == 11 && "crystal eye"@[0] == 'c' && "crystal eye"@[0] == 'c');
    assert("axehead"@.len() == 7 && "axehead"@[0] == 'a' && "axehead"@[0] == 'a');
    let tbl = big_fish_table();
    let a = tbl[i].name;
    assert(underscores_to_spaces(a) =~= a);
    lemma_first_fish_named_at(tbl, a, i);
}

/// Looking a name up in a table whose earlier entries carry other names finds entry `i`.
proof fn lemma_first_fish_named_at(tbl: Seq<FishKind>, a: Seq<char>, i: int)
    requires
        0 <= i < tbl.len(),
        tbl[i].name == a,
        forall|j: int| 0 <= j < i ==> tbl[j].name != a,
    ensures
        first_fish_named(tbl, a, a) == Some(tbl[i]),
    decreases i,
{
    if i > 0 {
        lemma_first_fish_named_at(tbl.drop_first(), a, i - 1);
    }
}

/// Which in-game times of day to fish at.
#[derive(Debug, Clone, Copy, PartialEq, Eq, Structural)]
pub enum FishingTimePolicy {
    /// Leave the time as it is.
    DontChange,
    /// Daytime only (7:00).
    Daytime,
    /// Night only (19:00).
    Nighttime,
    /// Day and night.
    Both,
}

/// The hours a policy fishes at, in order; none means the time is not changed.
pub open spec fn policy_hours(p: FishingTimePolicy) -> Seq<i32> {
    match p {
        FishingTimePolicy::DontChange => seq![],
        FishingTimePolicy::Daytime => seq![7],
        FishingTimePolicy::Nighttime => seq![19],
        FishingTimePolicy::Both => seq![7, 19],
    }
}

impl FishingTimePolicy {
    /// The hours to fish at, in order.
    pub fn hours(self) -> (h: &'static [i32])
        ensures
            h@ == policy_hours(self),
    {
        match self {
            FishingTimePolicy::DontChange => &[],
            FishingTimePolicy::Daytime => &[7],
            FishingTimePolicy::Nighttime => &[19],
            FishingTimePolicy::Both => &[7, 19],
        }
    }
}

/// Settings of the fishing task.
#[derive(Debug, Clone)]
pub struct AutoFishingConfig {
    /// Time limit of a whole round, in seconds (600 by default).
    pub whole_process_timeout_secs: u64,
    /// How long to wait for a bite after a cast, in seconds (18 by default).
    pub throw_rod_timeout_secs: u64,
    pub fishing_time_policy: FishingTimePolicy,
    /// The bait currently equipped, if known.
    pub equipped_bait: Option<BaitType>,
    /// Baits that may be used; none or an empty list allows all.
    pub bait_whitelist: Option<Vec<BaitType>>,
    /// Fish (by detector name) that may be caught; none or an empty list allows all.
    pub fish_whitelist: Option<Vec<&'static str>>,
    /// How many casts without a landing spot are tolerated.
    pub throw_rod_max_no_target: u32,
    /// How many aiming loops without a suitable fish are tolerated.
    pub throw_rod_max_no_fish_loops: u32,
}

/// Whether the configuration allows bait `b`.
pub open spec fn bait_allowed_by(cfg: &AutoFishingConfig, b: BaitType) -> bool {
    match cfg.bait_whitelist {
        None => true,
        Some(v) => v@.len() == 0 || v@.contains(b),
    }
}

/// Whether the configuration allows the fish named `name`.
pub open spec fn fish_allowed_by(cfg: &AutoFishingConfig, name: Seq<char>) -> bool {
    match cfg.fish_whitelist {
        None => true,
        Some(v) => v@.len() == 0 || exists|i: int| 0 <= i < v@.len() && (#[trigger] v@[i])@ == name,
    }
}

/// Whether a fish of kind `f` is worth catching: both the fish and its bait are allowed.
pub open spec fn is_target_kind(cfg: &AutoFishingConfig, f: FishKind) -> bool {
    fish_allowed_by(cfg, f.name) && bait_allowed_by(cfg, f.bait)
}

impl AutoFishingConfig {
    /// The default settings, with the given bait equipped.
    pub fn new(equipped_bait: Option<BaitType>) -> (c: Self)
        ensures
            c.whole_process_timeout_secs == 600,
            c.throw_rod_timeout_secs == 18,
            c.fishing_time_policy == FishingTimePolicy::DontChange,
            c.equipped_bait == equipped_bait,
            c.bait_whitelist is None,
            c.fish_whitelist is None,
            c.throw_rod_max_no_target == 2,
            c.throw_rod_max_no_fish_loops == 10,
    {
        AutoFishingConfig {
            whole_process_timeout_secs: 600,
            throw_rod_timeout_secs: 18,
            fishing_time_policy: FishingTimePolicy::DontChange,
            equipped_bait,
            bait_whitelist: None,
            fish_whitelist: None,
            throw_rod_max_no_target: 2,
            throw_rod_max_no_fish_loops: 10,
        }
    }

    /// Whether bait `b` may be used.
    pub fn bait_allowed(&self, b: BaitType) -> (r: bool)
        ensures
            r == bait_allowed_by(self, b),
    {
        match self.bait_whitelist.as_ref() {
            None => true,
            Some(v) => {
                if v.len() == 0 {
                    return true;
                }
                let mut i: usize = 0;
                while i < v.len()
                    invariant
                        self.bait_whitelist == Some(*v),
                        0 <= i <= v@.len(),
                        forall|j: int| 0 <= j < i ==> v@[j] != b,
                    decreases v@.len() - i,
                {
                    if v[i] == b {
                        assert(v@[i as int] == b);
                        assert(v@.contains(b));
                        return true;
                    }
                    i = i + 1;
                }
                false
            },
        }
    }

    /// Whether the fish named `name` may be caught.
    pub fn fish_allowed(&self, name: &str) -> (r: bool)
        ensures
            r == fish_allowed_by(self, name@),
    {
        match self.fish_whitelist.as_ref() {
            None => true,
            Some(v) => {
                if v.len() == 0 {
                    return true;
                }
                let mut i: usize = 0;
                while i < v.len()
                    invariant
                        self.fish_whitelist == Some(*v),
                        0 <= i <= v@.len(),
                        forall|j: int| 0 <= j < i ==> (#[trigger] v@[j])@ != name@,
                    decreases v@.len() - i,
                {
                    if str_eq(v[i], name) {
                        assert(v@[i as int]@ == name@);
                        return true;
                    }
                    i = i + 1;
                }
                false
            },
        }
    }
}

/// Whether a fish of kind `f` is worth catching under `cfg`.
pub fn is_target_fish(cfg: &AutoFishingConfig, f: &BigFishType) -> (r: bool)
    ensures
        r == is_target_kind(cfg, f@),
{
    cfg.fish_allowed(f.name) && cfg.bait_allowed(f.bait)
}

/// How many target fish take bait `b`.
pub open spec fn target_count(cfg: &AutoFishingConfig, fishes: Seq<FishKind>, b: BaitType) -> nat
    decreases fishes.len(),
{
    if fishes.len() == 0 {
        0
    } else {
        target_count(cfg, fishes.drop_last(), b) + if is_target_kind(cfg, fishes.last())
            && fishes.last().bait == b {
            1nat
        } else {
            0nat
        }
    }
}

/// How often `b` occurs in `s`.
pub open spec fn occurrences(s: Seq<BaitType>, b: BaitType) -> nat
    decreases s.len(),
{
    if s.len() == 0 {
        0
    } else {
        occurrences(s.drop_last(), b) + if s.last() == b {
            1nat
        } else {
            0nat
        }
    }
}

/// A bait may still be switched to after this many failed attempts to find it.
pub open spec fn bait_candidate(
    cfg: &AutoFishingConfig,
    fishes: Seq<FishKind>,
    failures: Seq<BaitType>,
    b: BaitType,
) -> bool {
    &&& target_count(cfg, fishes, b) > 0
    &&& bait_allowed_by(cfg, b)
    &&& occurrences(failures, b) < 2
}

/// What to do about the bait before a cast.
#[derive(Debug, Clone, Copy, PartialEq, Eq, Structural)]
pub enum BaitChoice {
    /// Cast with the current bait.
    Keep,
    /// No bait fits a fish worth catching; skip this cast.
    Skip,
    /// Switch to this bait.
    Switch(BaitType),
}

/// Whether `c` is the right choice of bait for the pond `pond` (the kinds of
/// its fish, or `None` where no pond is known), with `selected` equipped and
/// the baits of `failures` already searched for in vain.
pub open spec fn bait_choice_ok(
    cfg: &AutoFishingConfig,
    pond: Option<Seq<FishKind>>,
    selected: Option<BaitType>,
    failures: Seq<BaitType>,
    c: BaitChoice,
) -> bool {
    match pond {
        None => c == BaitChoice::Keep,
        Some(fishes) => if fishes.len() == 0 {
            c == BaitChoice::Keep
        } else if forall|i: int| 0 <= i < fishes.len() ==> !is_target_kind(cfg, #[trigger] fishes[i]) {
            c == BaitChoice::Skip
        } else if selected matches Some(cur) && bait_allowed_by(cfg, cur) && target_count(
            cfg,
            fishes,
            cur,
        ) > 0 {
            c == BaitChoice::Keep
        } else if forall|b: BaitType| !bait_candidate(cfg, fishes, failures, b) {
            c == BaitChoice::Skip
        } else {
            c matches BaitChoice::Switch(t) && bait_candidate(cfg, fishes, failures, t) && forall|
                b: BaitType,
            |
                bait_candidate(cfg, fishes, failures, b) ==> target_count(cfg, fishes, b)
                    <= target_count(cfg, fishes, t)
        },
    }
}

/// A fish of the pond worth catching takes its bait, so the bait counts.
proof fn lemma_target_count_positive(cfg: &AutoFishingConfig, fishes: Seq<FishKind>, i: int)
    requires
        0 <= i < fishes.len(),
        is_target_kind(cfg, fishes[i]),
    ensures
        target_count(cfg, fishes, fishes[i].bait) > 0,
    decreases fishes.len(),
{
    if i < fishes.len() - 1 {
        lemma_target_count_positive(cfg, fishes.drop_last(), i);
    }
}

/// No fish worth catching means no bait counts.
proof fn lemma_target_count_zero(cfg: &AutoFishingConfig, fishes: Seq<FishKind>, b: BaitType)
    requires
        forall|i: int| 0 <= i < fishes.len() ==> !is_target_kind(cfg, #[trigger] fishes[i]),
    ensures
        target_count(cfg, fishes, b) == 0,
    decreases fishes.len(),
{
    if fishes.len() > 0 {
        assert forall|i: int| 0 <= i < fishes.drop_last().len() implies !is_target_kind(
            cfg,
            #[trigger] fishes.drop_last()[i],
        ) by {
            assert(fishes.drop_last()[i] == fishes[i]);
        }
        lemma_target_count_zero(cfg, fishes.drop_last(), b);
        assert(!is_target_kind(cfg, fishes[fishes.len() - 1]));
    }
}

/// Every bait, in declaration order.
fn bait_list() -> (v: Vec<BaitType>)
    ensures
        v@ == all_baits(),
{
    vec![
        BaitType::FruitPasteBait,
        BaitType::RedrotBait,
        BaitType::FalseWormBait,
        BaitType::FakeFlyBait,
        BaitType::SugardewBait,
        BaitType::SourBait,
        BaitType::FlashingMaintenanceMekBait,
        BaitType::SpinelgrainBait,
        BaitType::EmberglowBait,
        BaitType::BerryBait,
        BaitType::RefreshingLakkaBait,
    ]
}

/// The list of all baits holds every bait.
proof fn lemma_all_baits_complete(b: BaitType)
    ensures
        all_baits().contains(b),
{
    let s = all_baits();
    match b {
        BaitType::FruitPasteBait => assert(s[0] == b),
        BaitType::RedrotBait => assert(s[1] == b),
        BaitType::FalseWormBait => assert(s[2] == b),
        BaitType::FakeFlyBait => assert(s[3] == b),
        BaitType::SugardewBait => assert(s[4] == b),
        BaitType::SourBait => assert(s[5] == b),
        BaitType::FlashingMaintenanceMekBait => assert(s[6] == b),
        BaitType::SpinelgrainBait => assert(s[7] == b),
        BaitType::EmberglowBait => assert(s[8] == b),
        BaitType::BerryBait => assert(s[9] == b),
        BaitType::RefreshingLakkaBait => assert(s[10] == b),
    }
}

/// How many target fish of `fishes` take bait `b`.
fn count_target(cfg: &AutoFishingConfig, fishes: &Vec<BigFishType>, b: BaitType) -> (n: usize)
    ensures
        n == target_count(cfg, fishes@.map_values(|f: BigFishType| f@), b),
{
    let ghost kinds = fishes@.map_values(|f: BigFishType| f@);
    let mut n: usize = 0;
    let mut i: usize = 0;
    while i < fishes.len()
        invariant
            kinds == fishes@.map_values(|f: BigFishType| f@),
            0 <= i <= fishes@.len(),
            n == target_count(cfg, kinds.take(i as int), b),
            n <= i,
        decreases fishes@.len() - i,
    {
        assert(kinds.take(i + 1).drop_last() =~= kinds.take(i as int));
        if is_target_fish(cfg, &fishes[i]) && fishes[i].bait == b {
            n = n + 1;
        }
        i = i + 1;
    }
    assert(kinds.take(i as int) =~= kinds);
    n
}

/// How often `b` occurs in `v`.
fn count_occurrences(v: &Vec<BaitType>, b: BaitType) -> (n: usize)
    ensures
        n == occurrences(v@, b),
{
    let mut n: usize = 0;
    let mut i: usize = 0;
    while i < v.len()
        invariant
            0 <= i <= v@.len(),
            n == occurrences(v@.take(i as int), b),
            n <= i,
        decreases v@.len() - i,
    {
        assert(v@.take(i + 1).drop_last() =~= v@.take(i as int));
        if v[i] == b {
            n = n + 1;
        }
        i = i + 1;
    }
    assert(v@.take(i as int) =~= v@);
    n
}

/// Decides the bait for the next cast: keep the current one while it fits a
/// fish worth catching, otherwise switch to the allowed bait that fits the
/// most such fish among those not yet searched for in vain twice.
pub fn choose_bait_target(
    cfg: &AutoFishingConfig,
    pond: Option<&Vec<BigFishType>>,
    selected: Option<BaitType>,
    failures: &Vec<BaitType>,
) -> (c: BaitChoice)
    ensures
        bait_choice_ok(
            cfg,
            match pond {
                Some(v) => Some(v@.map_values(|f: BigFishType| f@)),
                None => None,
            },
            selected,
            failures@,
            c,
        ),
{
    let fishes = match pond {
        None => {
            return BaitChoice::Keep;
        },
        Some(v) => v,
    };
    let ghost kinds = fishes@.map_values(|f: BigFishType| f@);
    if fishes.len() == 0 {
        return BaitChoice::Keep;
    }
    let mut any_target = false;
    let mut i: usize = 0;
    while i < fishes.len()
        invariant
            kinds == fishes@.map_values(|f: BigFishType| f@),
            0 <= i <= fishes@.len(),
            !any_target ==> forall|j: int| 0 <= j < i ==> !is_target_kind(cfg, #[trigger] kinds[j]),
            any_target ==> exists|j: int| 0 <= j < fishes@.len() && is_target_kind(cfg, #[trigger] kinds[j]),
        decreases fishes@.len() - i,
    {
        if is_target_fish(cfg, &fishes[i]) {
            assert(is_target_kind(cfg, kinds[i as int]));
            any_target = true;
        }
        i = i + 1;
    }
    if !any_target {
        return BaitChoice::Skip;
    }
    proof {
        let j = choose|j: int| 0 <= j < fishes@.len() && is_target_kind(cfg, #[trigger] kinds[j]);
        lemma_target_count_positive(cfg, kinds, j);
    }
    if let Some(cur) = selected {
        if cfg.bait_allowed(cur) && count_target(cfg, fishes, cur) > 0 {
            return BaitChoice::Keep;
        }
    }
    let baits = bait_list();
    let mut best: Option<(BaitType, usize)> = None;
    let mut k: usize = 0;
    while k < baits.len()
        invariant
            kinds == fishes@.map_values(|f: BigFishType| f@),
            baits@ == all_baits(),
            0 <= k <= baits@.len(),
            match best {
                None => forall|j: int|
                    0 <= j < k ==> !bait_candidate(cfg, kinds, failures@, #[trigger] baits@[j]),
                Some((t, n)) => {
                    &&& bait_candidate(cfg, kinds, failures@, t)
                    &&& n == target_count(cfg, kinds, t)
                    &&& forall|j: int|
                        0 <= j < k && bait_candidate(cfg, kinds, failures@, #[trigger] baits@[j])
                            ==> target_count(cfg, kinds, baits@[j]) <= n
                },
            },
        decreases baits@.len() - k,
    {
        let b = baits[k];
        let n = count_target(cfg, fishes, b);
        if n > 0 && cfg.bait_allowed(b) && count_occurrences(failures, b) < 2 {
            match best {
                None => {
                    best = Some((b, n));
                },
                Some((_, m)) => {
                    if n > m {
                        best = Some((b, n));
                    }
                },
            }
        }
        k = k + 1;
    }
    match best {
        None => {
            proof {
                assert forall|b: BaitType| !bait_candidate(cfg, kinds, failures@, b) by {
                    lemma_all_baits_complete(b);
                    let j = choose|j: int| 0 <= j < all_baits().len() && all_baits()[j] == b;
                    assert(!bait_candidate(cfg, kinds, failures@, baits@[j]));
                }
            }
            BaitChoice::Skip
        },
        Some((t, _)) => {
            proof {
                assert forall|b: BaitType| bait_candidate(cfg, kinds, failures@, b) implies target_count(
                    cfg,
                    kinds,
                    b,
                ) <= target_count(cfg, kinds, t) by {
                    lemma_all_baits_complete(b);
                    let j = choose|j: int| 0 <= j < all_baits().len() && all_baits()[j] == b;
                    assert(baits@[j] == b);
                }
            }
            BaitChoice::Switch(t)
        },
    }
}

/// How the aim of a cast relates to the target fish.
#[derive(Debug, Clone, Copy, PartialEq, Eq, Structural)]
pub enum RodState {
    /// The distance is right: release the rod.
    JustRight,
    /// Too close: move the aim away from the fish.
    TooClose,
    /// Too far: move the aim towards the fish.
    TooFar,
}

/// The next state of the generator that scatters the aim: a 64-bit linear
/// congruential step.
pub open spec fn lcg_next(s: u64) -> u64 {
    ((s as nat * 6364136223846793005nat + 1442695040888963407nat) % 0x1_0000_0000_0000_0000nat) as u64
}

/// The 31-bit draw taken from a generator state.
pub open spec fn lcg_draw(s: u64) -> int {
    (s as nat / 0x2_0000_0000nat) as int
}

/// `a / d` rounded toward zero, for a positive `d`.
pub open spec fn div_pos(a: int, d: int) -> int {
    if a >= 0 {
        a / d
    } else {
        -((-a) / d)
    }
}

/// One coordinate of a random offset: the draw `r` mapped into the screen
/// extent `w` and scaled to a percentage of it around the centre.
pub open spec fn offset_from_draw(r: int, w: i32) -> int {
    let wm: int = if w >= 1 { w as int } else { 1 };
    div_pos(100 * (div_pos(w as int, 2) - r % wm), wm)
}

/// The offset stays within `i32` for the state `s`.
pub open spec fn random_offset_fits(s: u64, w: i32, h: i32) -> bool {
    let s1 = lcg_next(s);
    let s2 = lcg_next(s1);
    let wm: int = if w >= 1 { w as int } else { 1 };
    let hm: int = if h >= 1 { h as int } else { 1 };
    &&& i32::MIN <= 100 * (div_pos(w as int, 2) - lcg_draw(s1) % wm) <= i32::MAX
    &&& i32::MIN <= 100 * (div_pos(h as int, 2) - lcg_draw(s2) % hm) <= i32::MAX
}

/// The generator step as the wrapping operations compute it.
proof fn lemma_lcg_step(s: u64)
    ensures
        vstd::wrapping::u64_specs::wrapping_add(
            vstd::wrapping::u64_specs::wrapping_mul(s, 6364136223846793005u64),
            1442695040888963407u64,
        ) == lcg_next(s),
{
    let m: nat = 0x1_0000_0000_0000_0000nat;
    let p: nat = (s as nat * 6364136223846793005nat) % m;
    vstd::arithmetic::div_mod::lemma_add_mod_noop(
        (s as nat * 6364136223846793005nat) as int,
        1442695040888963407int,
        m as int,
    );
    vstd::arithmetic::div_mod::lemma_mod_bound((s as nat * 6364136223846793005nat) as int, m as int);
    vstd::arithmetic::div_mod::lemma_small_mod(1442695040888963407nat, m);
    if p + 1442695040888963407nat >= m {
        vstd::arithmetic::div_mod::lemma_fundamental_div_mod_converse(
            (p + 1442695040888963407nat) as int,
            m as int,
            1,
            (p + 1442695040888963407nat - m) as int,
        );
    } else {
        vstd::arithmetic::div_mod::lemma_small_mod((p + 1442695040888963407nat), m);
    }
}

/// A pseudo-random aim offset, in percent of the screen extent, for a screen
/// of `w` by `h`; advances `state` twice.
pub fn random_mouse_offset(state: &mut u64, w: i32, h: i32) -> (r: (i32, i32))
    requires
        random_offset_fits(*old(state), w, h),
    ensures
        *final(state) == lcg_next(lcg_next(*old(state))),
        r.0 == offset_from_draw(lcg_draw(lcg_next(*old(state))), w),
        r.1 == offset_from_draw(lcg_draw(*final(state)), h),
{
    proof {
        lemma_lcg_step(*state);
    }
    *state = state.wrapping_mul(6364136223846793005).wrapping_add(1442695040888963407);
    let s1 = *state;
    let hi1 = s1 >> 33;
    assert(hi1 == s1 / 0x2_0000_0000u64 && hi1 < 0x8000_0000u64) by (bit_vector)
        requires
            hi1 == s1 >> 33,
    ;
    let rx = (hi1 as i32) & 0x7fff_ffff;
    assert(rx == hi1) by (bit_vector)
        requires
            hi1 < 0x8000_0000u64,
            rx == (hi1 as i32) & 0x7fff_ffff,
    ;
    proof {
        lemma_lcg_step(*state);
    }
    *state = state.wrapping_mul(6364136223846793005).wrapping_add(1442695040888963407);
    let s2 = *state;
    let hi2 = s2 >> 33;
    assert(hi2 == s2 / 0x2_0000_0000u64 && hi2 < 0x8000_0000u64) by (bit_vector)
        requires
            hi2 == s2 >> 33,
    ;
    let ry = (hi2 as i32) & 0x7fff_ffff;
    assert(ry == hi2) by (bit_vector)
        requires
            hi2 < 0x8000_0000u64,
            ry == (hi2 as i32) & 0x7fff_ffff,
    ;
    let cx = w / 2;
    let cy = h / 2;
    let wm = if w > 1 {
        w
    } else {
        1
    };
    let hm = if h > 1 {
        h
    } else {
        1
    };
    let dx = 100 * (cx - rx % wm) / wm;
    let dy = 100 * (cy - ry % hm) / hm;
    (dx, dy)
}

/// A random aim offset never leaves the middle of the screen: each
/// coordinate lies within 50 percent of the extent either way.
pub proof fn lemma_random_offset_within_half(r: int, w: i32)
    requires
        r >= 0,
        w >= 1,
    ensures
        -50 <= offset_from_draw(r, w) <= 50,
{
    let wi = w as int;
    let c = div_pos(wi, 2);
    let m = r % wi;
    assert(c == wi / 2);
    assert(0 <= m < wi);
    assert(2 * c <= wi && wi <= 2 * c + 1);
    let num = 100 * (c - m);
    if num >= 0 {
        assert(num <= 100 * c);
        assert(num / wi <= 50) by (nonlinear_arith)
            requires
                0 <= num <= 100 * c,
                2 * c <= wi,
                wi >= 1,
        ;
        assert(num / wi >= 0) by (nonlinear_arith)
            requires
                num >= 0,
                wi >= 1,
        ;
    } else {
        let neg = -num;
        assert(neg <= 100 * (wi - 1 - c));
        assert(wi - 1 - c <= c);
        assert(neg / wi <= 50) by (nonlinear_arith)
            requires
                0 < neg <= 100 * c,
                2 * c <= wi,
                wi >= 1,
        ;
        assert(neg / wi >= 0) by (nonlinear_arith)
            requires
                neg > 0,
                wi >= 1,
        ;
    }
}

/// What stopped the fishing task.
#[derive(Debug)]
pub enum AutoFishingError {
    /// A model could not be loaded.
    ModelLoad(String),
    /// No screenshot could be taken.
    Capture,
    /// The input device failed.
    Device(String),
    /// Navigation failed.
    Navigate(NavigateError),
    /// The task ran out of time.
    Timeout,
    /// The task was cancelled.
    Cancelled,
    /// Entering or leaving fishing mode failed.
    Flow(&'static str),
    /// Setting the in-game time failed.
    SetTime(String),
}

impl From<NavigateError> for AutoFishingError {
    fn from(e: NavigateError) -> (r: Self) {
        AutoFishingError::Navigate(e)
    }
}

impl vstd::std_specs::convert::FromSpecImpl<NavigateError> for AutoFishingError {
    open spec fn obeys_from_spec() -> bool {
        true
    }

    open spec fn from_spec(e: NavigateError) -> Self {
        AutoFishingError::Navigate(e)
    }
}

} // verus!
