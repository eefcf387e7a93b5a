//! Server core detection: the family of a server core, its canonical name,
//! and detection from a file name by keyword.

use vstd::prelude::*;

use crate::text::{contains_sub, ends_with_chars, lower_ascii, spec_contains, spec_ends_with,
    spec_lower, str_eq};

verus! {

/// A known server core family.
#[derive(Debug, Clone, Copy, PartialEq, Eq, Structural, Hash)]
pub enum CoreType {
    ArclightForge,
    ArclightNeoforge,
    Youer,
    Mohist,
    Catserver,
    Spongeforge,
    ArclightFabric,
    Banner,
    Neoforge,
    Forge,
    Quilt,
    Fabric,
    PufferfishPurpur,
    Pufferfish,
    Spongevanilla,
    Purpur,
    Paper,
    Folia,
    Leaves,
    Leaf,
    Spigot,
    Bukkit,
    VanillaSnapshot,
    Vanilla,
    Nukkitx,
    Bedrock,
    Velocity,
    Bungeecord,
    Lightfall,
    Travertine,
    Unknown,
}

/// The canonical display name of each core family.
pub open spec fn spec_core_name(c: CoreType) -> Seq<char> {
    match c {
        CoreType::ArclightForge => "Arclight-Forge"@,
        CoreType::ArclightNeoforge => "Arclight-Neoforge"@,
        CoreType::Youer => "Youer"@,
        CoreType::Mohist => "Mohist"@,
        CoreType::Catserver => "Catserver"@,
        CoreType::Spongeforge => "Spongeforge"@,
        CoreType::ArclightFabric => "Arclight-Fabric"@,
        CoreType::Banner => "Banner"@,
        CoreType::Neoforge => "Neoforge"@,
        CoreType::Forge => "Forge"@,
        CoreType::Quilt => "Quilt"@,
        CoreType::Fabric => "Fabric"@,
        CoreType::PufferfishPurpur => "Pufferfish_Purpur"@,
        CoreType::Pufferfish => "Pufferfish"@,
        CoreType::Spongevanilla => "Spongevanilla"@,
        CoreType::Purpur => "Purpur"@,
        CoreType::Paper => "Paper"@,
        CoreType::Folia => "Folia"@,
        CoreType::Leaves => "Leaves"@,
        CoreType::Leaf => "Leaf"@,
        CoreType::Spigot => "Spigot"@,
        CoreType::Bukkit => "Bukkit"@,
        CoreType::VanillaSnapshot => "Vanilla-Snapshot"@,
        CoreType::Vanilla => "Vanilla"@,
        CoreType::Nukkitx => "Nukkitx"@,
        CoreType::Bedrock => "Bedrock"@,
        CoreType::Velocity => "Velocity"@,
        CoreType::Bungeecord => "Bungeecord"@,
        CoreType::Lightfall => "Lightfall"@,
        CoreType::Travertine => "Travertine"@,
        CoreType::Unknown => "Unknown"@,
    }
}

/// The detection verdict for an ASCII-lowercased name: the first family in
/// detection order with a keyword occurring in the name.
pub open spec fn spec_detect(l: Seq<char>) -> CoreType {
    if spec_contains(l, "arclight-forge"@) {
        CoreType::ArclightForge
    } else if spec_contains(l, "arclight-neoforge"@) {
        CoreType::ArclightNeoforge
    } else if spec_contains(l, "youer"@) {
        CoreType::Youer
    } else if spec_contains(l, "mohist"@) {
        CoreType::Mohist
    } else if spec_contains(l, "catserver"@) {
        CoreType::Catserver
    } else if spec_contains(l, "spongeforge"@) {
        CoreType::Spongeforge
    } else if spec_contains(l, "arclight-fabric"@) {
        CoreType::ArclightFabric
    } else if spec_contains(l, "banner"@) {
        CoreType::Banner
    } else if spec_contains(l, "neoforge"@) {
        CoreType::Neoforge
    } else if spec_contains(l, "forge"@) {
        CoreType::Forge
    } else if spec_contains(l, "quilt"@) {
        CoreType::Quilt
    } else if spec_contains(l, "fabric"@) {
        CoreType::Fabric
    } else if spec_contains(l, "pufferfish_purpur"@) || spec_contains(l, "pufferfish-purpur"@) {
        CoreType::PufferfishPurpur
    } else if spec_contains(l, "pufferfish"@) {
        CoreType::Pufferfish
    } else if spec_contains(l, "spongevanilla"@) {
        CoreType::Spongevanilla
    } else if spec_contains(l, "purpur"@) {
        CoreType::Purpur
    } else if spec_contains(l, "paper"@) {
        CoreType::Paper
    } else if spec_contains(l, "folia"@) {
        CoreType::Folia
    } else if spec_contains(l, "leaves"@) {
        CoreType::Leaves
    } else if spec_contains(l, "leaf"@) {
        CoreType::Leaf
    } else if spec_contains(l, "spigot"@) {
        CoreType::Spigot
    } else if spec_contains(l, "bukkit"@) {
        CoreType::Bukkit
    } else if spec_contains(l, "vanilla-snapshot"@) {
        CoreType::VanillaSnapshot
    } else if spec_contains(l, "vanilla"@) {
        CoreType::Vanilla
    } else if spec_contains(l, "nukkitx"@) || spec_contains(l, "nukkit"@) {
        CoreType::Nukkitx
    } else if spec_contains(l, "bedrock"@) {
        CoreType::Bedrock
    } else if spec_contains(l, "velocity"@) {
        CoreType::Velocity
    } else if spec_contains(l, "bungeecord"@) {
        CoreType::Bungeecord
    } else if spec_contains(l, "lightfall"@) {
        CoreType::Lightfall
    } else if spec_contains(l, "travertine"@) {
        CoreType::Travertine
    } else {
        CoreType::Unknown
    }
}

impl CoreType {
    /// The canonical display name.
    pub fn as_str(&self) -> (r: &'static str)
        ensures
            r@ == spec_core_name(*self),
    {
        match self {
            CoreType::ArclightForge => "Arclight-Forge",
            CoreType::ArclightNeoforge => "Arclight-Neoforge",
            CoreType::Youer => "Youer",
            CoreType::Mohist => "Mohist",
            CoreType::Catserver => "Catserver",
            CoreType::Spongeforge => "Spongeforge",
            CoreType::ArclightFabric => "Arclight-Fabric",
            CoreType::Banner => "Banner",
            CoreType::Neoforge => "Neoforge",
            CoreType::Forge => "Forge",
            CoreType::Quilt => "Quilt",
            CoreType::Fabric => "Fabric",
            CoreType::PufferfishPurpur => "Pufferfish_Purpur",
            CoreType::Pufferfish => "Pufferfish",
            CoreType::Spongevanilla => "Spongevanilla",
            CoreType::Purpur => "Purpur",
            CoreType::Paper => "Paper",
            CoreType::Folia => "Folia",
            CoreType::Leaves => "Leaves",
            CoreType::Leaf => "Leaf",
            CoreType::Spigot => "Spigot",
            CoreType::Bukkit => "Bukkit",
            CoreType::VanillaSnapshot => "Vanilla-Snapshot",
            CoreType::Vanilla => "Vanilla",
            CoreType::Nukkitx => "Nukkitx",
            CoreType::Bedrock => "Bedrock",
            CoreType::Velocity => "Velocity",
            CoreType::Bungeecord => "Bungeecord",
            CoreType::Lightfall => "Lightfall",
            CoreType::Travertine => "Travertine",
            CoreType::Unknown => "Unknown",
        }
    }

    /// Detection from a file name: the name is ASCII-lowercased and the
    /// first family whose keyword occurs in it wins; no keyword means the
    /// family is unknown.
    pub fn detect_from_filename(filename: &str) -> (r: CoreType)
        ensures
            r == spec_detect(spec_lower(filename@)),
    {
        let lowered = lower_ascii(filename);
        let l = lowered.as_str();
        if contains_sub(l, "arclight-forge") {
            CoreType::ArclightForge
        } else if contains_sub(l, "arclight-neoforge") {
            CoreType::ArclightNeoforge
        } else if contains_sub(l, "youer") {
            CoreType::Youer
        } else if contains_sub(l, "mohist") {
            CoreType::Mohist
        } else if contains_sub(l, "catserver") {
            CoreType::Catserver
        } else if contains_sub(l, "spongeforge") {
            CoreType::Spongeforge
        } else if contains_sub(l, "arclight-fabric") {
            CoreType::ArclightFabric
        } else if contains_sub(l, "banner") {
            CoreType::Banner
        } else if contains_sub(l, "neoforge") {
            CoreType::Neoforge
        } else if contains_sub(l, "forge") {
            CoreType::Forge
        } else if contains_sub(l, "quilt") {
            CoreType::Quilt
        } else if contains_sub(l, "fabric") {
            CoreType::Fabric
        } else if contains_sub(l, "pufferfish_purpur") || contains_sub(l, "pufferfish-purpur") {
            CoreType::PufferfishPurpur
        } else if contains_sub(l, "pufferfish") {
            CoreType::Pufferfish
        } else if contains_sub(l, "spongevanilla") {
            CoreType::Spongevanilla
        } else if contains_sub(l, "purpur") {
            CoreType::Purpur
        } else if contains_sub(l, "paper") {
            CoreType::Paper
        } else if contains_sub(l, "folia") {
            CoreType::Folia
        } else if contains_sub(l, "leaves") {
            CoreType::Leaves
        } else if contains_sub(l, "leaf") {
            CoreType::Leaf
        } else if contains_sub(l, "spigot") {
            CoreType::Spigot
        } else if contains_sub(l, "bukkit") {
            CoreType::Bukkit
        } else if contains_sub(l, "vanilla-snapshot") {
            CoreType::VanillaSnapshot
        } else if contains_sub(l, "vanilla") {
            CoreType::Vanilla
        } else if contains_sub(l, "nukkitx") || contains_sub(l, "nukkit") {
            CoreType::Nukkitx
        } else if contains_sub(l, "bedrock") {
            CoreType::Bedrock
        } else if contains_sub(l, "velocity") {
            CoreType::Velocity
        } else if contains_sub(l, "bungeecord") {
            CoreType::Bungeecord
        } else if contains_sub(l, "lightfall") {
            CoreType::Lightfall
        } else if contains_sub(l, "travertine") {
            CoreType::Travertine
        } else {
            CoreType::Unknown
        }
    }
}

/// The core family a jar's manifest main class reveals, when it does.
pub open spec fn spec_core_from_main_class(mc: Seq<char>) -> Option<CoreType> {
    if spec_starts_mc(mc, "net.neoforged.serverstarterjar"@) {
        Some(CoreType::Neoforge)
    } else if mc == "net.minecraft.server.MinecraftServer"@ || mc == "net.minecraft.bundler.Main"@ {
        Some(CoreType::Vanilla)
    } else if mc == "net.minecraft.client.Main"@ {
        Some(CoreType::Unknown)
    } else if mc == "net.minecraftforge.installer.SimpleInstaller"@ {
        Some(CoreType::Forge)
    } else if mc == "net.fabricmc.installer.Main"@ || mc == "net.fabricmc.installer.ServerLauncher"@ {
        Some(CoreType::Fabric)
    } else if mc == "io.izzel.arclight.server.Launcher"@ {
        Some(CoreType::ArclightForge)
    } else if mc == "catserver.server.CatServerLaunch"@ || mc == "foxlaunch.FoxServerLauncher"@ {
        Some(CoreType::Catserver)
    } else if mc == "org.bukkit.craftbukkit.Main"@ || mc == "org.bukkit.craftbukkit.bootstrap.Main"@ {
        Some(CoreType::Bukkit)
    } else if mc == "io.papermc.paperclip.Main"@ || mc == "com.destroystokyo.paperclip.Paperclip"@ {
        Some(CoreType::Paper)
    } else if mc == "org.leavesmc.leavesclip.Main"@ {
        Some(CoreType::Leaves)
    } else if mc == "net.md_5.bungee.Bootstrap"@ {
        Some(CoreType::Lightfall)
    } else if mc == "com.mohistmc.MohistMCStart"@ || mc == "com.mohistmc.MohistMC"@ {
        Some(CoreType::Mohist)
    } else if mc == "com.velocitypowered.proxy.Velocity"@ {
        Some(CoreType::Velocity)
    } else {
        None
    }
}

/// Prefix test, spelled out for the main-class rule.
pub open spec fn spec_starts_mc(s: Seq<char>, prefix: Seq<char>) -> bool {
    crate::text::spec_starts_with(s, prefix)
}

/// Maps a jar manifest's main class to the core family it reveals.
pub fn core_type_from_main_class(main_class: &str) -> (r: Option<CoreType>)
    ensures
        r == spec_core_from_main_class(main_class@),
{
    let mc = main_class;
    if crate::text::starts_with_chars(mc, "net.neoforged.serverstarterjar") {
        Some(CoreType::Neoforge)
    } else if str_eq(mc, "net.minecraft.server.MinecraftServer") || str_eq(
        mc,
        "net.minecraft.bundler.Main",
    ) {
        Some(CoreType::Vanilla)
    } else if str_eq(mc, "net.minecraft.client.Main") {
        Some(CoreType::Unknown)
    } else if str_eq(mc, "net.minecraftforge.installer.SimpleInstaller") {
        Some(CoreType::Forge)
    } else if str_eq(mc, "net.fabricmc.installer.Main") || str_eq(
        mc,
        "net.fabricmc.installer.ServerLauncher",
    ) {
        Some(CoreType::Fabric)
    } else if str_eq(mc, "io.izzel.arclight.server.Launcher") {
        Some(CoreType::ArclightForge)
    } else if str_eq(mc, "catserver.server.CatServerLaunch") || str_eq(
        mc,
        "foxlaunch.FoxServerLauncher",
    ) {
        Some(CoreType::Catserver)
    } else if str_eq(mc, "org.bukkit.craftbukkit.Main") || str_eq(
        mc,
        "org.bukkit.craftbukkit.bootstrap.Main",
    ) {
        Some(CoreType::Bukkit)
    } else if str_eq(mc, "io.papermc.paperclip.Main") || str_eq(
        mc,
        "com.destroystokyo.paperclip.Paperclip",
    ) {
        Some(CoreType::Paper)
    } else if str_eq(mc, "org.leavesmc.leavesclip.Main") {
        Some(CoreType::Leaves)
    } else if str_eq(mc, "net.md_5.bungee.Bootstrap") {
        Some(CoreType::Lightfall)
    } else if str_eq(mc, "com.mohistmc.MohistMCStart") || str_eq(mc, "com.mohistmc.MohistMC") {
        Some(CoreType::Mohist)
    } else if str_eq(mc, "com.velocitypowered.proxy.Velocity") {
        Some(CoreType::Velocity)
    } else {
        None
    }
}

/// Whether the path names a start script by its extension.
pub open spec fn spec_is_script(s: Seq<char>) -> bool {
    spec_ends_with(spec_lower(s), ".sh"@) || spec_ends_with(spec_lower(s), ".bat"@)
}

/// Whether the path names a start script (`.sh` or `.bat`, any case).
pub fn is_script_file(path: &str) -> (r: bool)
    ensures
        r == spec_is_script(path@),
{
    let lowered = lower_ascii(path);
    ends_with_chars(lowered.as_str(), ".sh") || ends_with_chars(lowered.as_str(), ".bat")
}

/// The file-name portion of a path: the characters after the last
/// separator.
pub open spec fn spec_file_name(s: Seq<char>) -> Seq<char> {
    spec_file_name_from(s, s.len() as int)
}

/// The file name, scanning left from position `i`.
pub open spec fn spec_file_name_from(s: Seq<char>, i: int) -> Seq<char>
    decreases i,
{
    if i <= 0 {
        s.subrange(0, s.len() as int)
    } else if s[i - 1] == '/' || s[i - 1] == '\\' {
        s.subrange(i, s.len() as int)
    } else {
        spec_file_name_from(s, i - 1)
    }
}

/// The file-name portion of a path.
#[verifier::loop_isolation(false)]
pub fn file_name_of(path: &str) -> (r: String)
    ensures
        r@ == spec_file_name(path@),
{
    let n = path.unicode_len();
    let mut i: usize = n;
    while i > 0
        invariant
            i <= n,
            n == path@.len(),
            spec_file_name(path@) == spec_file_name_from(path@, i as int),
        decreases i,
    {
        let c = path.get_char(i - 1);
        if c == '/' || c == '\\' {
            let r = path.substring_char(i, n);
            assert(r@ =~= path@.subrange(i as int, n as int));
            return r.to_owned();
        }
        i -= 1;
    }
    let r = path.substring_char(0, n);
    assert(r@ =~= path@.subrange(0, n as int));
    r.to_owned()
}

/// Detection for a plain path: a start script defers to a server jar found
/// beside it, which the host looks up and hands over; any other path is
/// judged by its file name. The canonical family name is returned.
pub fn detect_core_type(input: &str, sibling_jar: Option<String>) -> (r: String)
    ensures
        r@ == spec_core_name(
            spec_detect(
                spec_lower(
                    if spec_is_script(input@) {
                        match sibling_jar {
                            Some(j) => j@,
                            None => input@,
                        }
                    } else {
                        spec_file_name(input@)
                    },
                ),
            ),
        ),
{
    let target = if is_script_file(input) {
        match sibling_jar {
            Some(j) => j,
            None => input.to_owned(),
        }
    } else {
        file_name_of(input)
    };
    let core = CoreType::detect_from_filename(target.as_str());
    core.as_str().to_owned()
}

} // verus!
