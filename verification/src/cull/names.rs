//! Block-name tables that classify block states for culling.
use vstd::prelude::*;

verus! {

/// Known block names for air categories.
pub const AIR_NAMES: [&'static str; 10] = [
    "air",
    "minecraft:air",
    "cave_air",
    "minecraft:cave_air",
    "void_air",
    "minecraft:void_air",
    "structure_void",
    "minecraft:structure_void",
    "bubble_column",
    "minecraft:bubble_column",
];

/// Known block names for fluid categories.
pub const FLUID_NAMES: [&'static str; 8] = [
    "water",
    "minecraft:water",
    "flowing_water",
    "minecraft:flowing_water",
    "lava",
    "minecraft:lava",
    "flowing_lava",
    "minecraft:flowing_lava",
];

/// Known block names for leaves categories.
pub const LEAVES_NAMES: [&'static str; 22] = [
    "oak_leaves",
    "minecraft:oak_leaves",
    "spruce_leaves",
    "minecraft:spruce_leaves",
    "birch_leaves",
    "minecraft:birch_leaves",
    "jungle_leaves",
    "minecraft:jungle_leaves",
    "acacia_leaves",
    "minecraft:acacia_leaves",
    "dark_oak_leaves",
    "minecraft:dark_oak_leaves",
    "mangrove_leaves",
    "minecraft:mangrove_leaves",
    "cherry_leaves",
    "minecraft:cherry_leaves",
    "azalea_leaves",
    "minecraft:azalea_leaves",
    "flowering_azalea_leaves",
    "minecraft:flowering_azalea_leaves",
    "pale_oak_leaves",
    "minecraft:pale_oak_leaves",
];

/// Known block names for glass categories.
pub const GLASS_NAMES: [&'static str; 50] = [
    "glass",
    "minecraft:glass",
    "tinted_glass",
    "minecraft:tinted_glass",
    "white_stained_glass",
    "minecraft:white_stained_glass",
    "orange_stained_glass",
    "minecraft:orange_stained_glass",
    "magenta_stained_glass",
    "minecraft:magenta_stained_glass",
    "light_blue_stained_glass",
    "minecraft:light_blue_stained_glass",
    "yellow_stained_glass",
    "minecraft:yellow_stained_glass",
    "lime_stained_glass",
    "minecraft:lime_stained_glass",
    "pink_stained_glass",
    "minecraft:pink_stained_glass",
    "gray_stained_glass",
    "minecraft:gray_stained_glass",
    "light_gray_stained_glass",
    "minecraft:light_gray_stained_glass",
    "cyan_stained_glass",
    "minecraft:cyan_stained_glass",
    "purple_stained_glass",
    "minecraft:purple_stained_glass",
    "blue_stained_glass",
    "minecraft:blue_stained_glass",
    "brown_stained_glass",
    "minecraft:brown_stained_glass",
    "green_stained_glass",
    "minecraft:green_stained_glass",
    "red_stained_glass",
    "minecraft:red_stained_glass",
    "black_stained_glass",
    "minecraft:black_stained_glass",
    "ice",
    "minecraft:ice",
    "packed_ice",
    "minecraft:packed_ice",
    "blue_ice",
    "minecraft:blue_ice",
    "frosted_ice",
    "minecraft:frosted_ice",
    "slime_block",
    "minecraft:slime_block",
    "honey_block",
    "minecraft:honey_block",
    "powder_snow",
    "minecraft:powder_snow",
];

/// Known block names for non-occluding categories.
pub const NON_OCCLUDING_NAMES: [&'static str; 46] = [
    "torch",
    "wall_torch",
    "soul_torch",
    "soul_wall_torch",
    "redstone_torch",
    "redstone_wall_torch",
    "lantern",
    "soul_lantern",
    "short_grass",
    "tall_grass",
    "fern",
    "large_fern",
    "dandelion",
    "poppy",
    "blue_orchid",
    "allium",
    "azure_bluet",
    "red_tulip",
    "orange_tulip",
    "white_tulip",
    "pink_tulip",
    "oxeye_daisy",
    "cornflower",
    "lily_of_the_valley",
    "wither_rose",
    "sunflower",
    "lilac",
    "rose_bush",
    "peony",
    "dead_bush",
    "sapling",
    "wheat",
    "carrots",
    "potatoes",
    "beetroots",
    "sweet_berry_bush",
    "ladder",
    "lever",
    "tripwire_hook",
    "tripwire",
    "vine",
    "scaffolding",
    "barrier",
    "light",
    "structure_void",
    "bubble_column",
];

/// Suffixes identifying partial non-full blocks.
pub const PARTIAL_SHAPE_SUFFIXES: [&'static str; 20] = [
    "_fence",
    "_fence_gate",
    "_wall",
    "_pane",
    "_bars",
    "_trapdoor",
    "_door",
    "_carpet",
    "_bed",
    "_sign",
    "_hanging_sign",
    "_head",
    "_skull",
    "_banner",
    "_candle",
    "_pot",
    "_rod",
    "_coral",
    "_fan",
    "_chain",
];

/// Exact names identifying partial non-full blocks.
pub const PARTIAL_SHAPE_EXACT_NAMES: [&'static str; 53] = [
    "iron_bars",
    "glass_pane",
    "chest",
    "trapped_chest",
    "ender_chest",
    "bell",
    "anvil",
    "chipped_anvil",
    "damaged_anvil",
    "cauldron",
    "water_cauldron",
    "lava_cauldron",
    "powder_snow_cauldron",
    "hopper",
    "brewing_stand",
    "flower_pot",
    "conduit",
    "beacon",
    "decorated_pot",
    "end_portal_frame",
    "end_portal",
    "end_gateway",
    "chain",
    "iron_chain",
    "copper_chain",
    "exposed_copper_chain",
    "weathered_copper_chain",
    "oxidized_copper_chain",
    "lever",
    "tripwire_hook",
    "tripwire",
    "repeater",
    "comparator",
    "daylight_detector",
    "lightning_rod",
    "end_rod",
    "dragon_egg",
    "scaffolding",
    "pointed_dripstone",
    "amethyst_cluster",
    "small_amethyst_bud",
    "medium_amethyst_bud",
    "large_amethyst_bud",
    "calibrated_sculk_sensor",
    "sculk_sensor",
    "sculk_shrieker",
    "sculk_vein",
    "snow",
    "ladder",
    "grindstone",
    "stonecutter",
    "lectern",
    "sniffer_egg",
];

/// Substrings identifying partial non-full blocks.
pub const PARTIAL_SHAPE_KEYWORDS: [&'static str; 10] = [
    "flower",
    "sapling",
    "torch",
    "lantern",
    "pane",
    "fence",
    "wall",
    "carpet",
    "trapdoor",
    "door",
];

} // verus!
