//! The data model of plugins and surrounding services: manifest fragments,
//! permission metadata, market and update records, and the small carrier
//! types the command surface exchanges. These are plain values; the host
//! owns their serialized forms.

use vstd::prelude::*;

use crate::text::str_eq;

verus! {

/// How dangerous a granted permission is, for consent dialogs.
#[derive(Debug, Clone, Copy, PartialEq, Eq, Structural)]
pub enum PermissionDangerLevel {
    Normal,
    Dangerous,
    Critical,
}

/// Display metadata of one permission token.
#[derive(Debug, Clone)]
pub struct PermissionMeta {
    pub id: &'static str,
    pub name: &'static str,
    pub description: &'static str,
    pub danger_level: PermissionDangerLevel,
    pub icon: &'static str,
}

/// The danger level assigned to a permission token: program execution,
/// foreign plugin folders and event interception are critical; filesystem,
/// network, server control, console and component mutation are dangerous;
/// everything else is normal.
pub open spec fn spec_danger_level(id: Seq<char>) -> PermissionDangerLevel {
    if id == "execute_program"@ || id == "plugin_folder_access"@ || id == "ui.component.proxy"@ {
        PermissionDangerLevel::Critical
    } else if id == "fs"@ || id == "network"@ || id == "server"@ || id == "console"@ || id
        == "ui.component.write"@ || id == "ui.component.create"@ {
        PermissionDangerLevel::Dangerous
    } else {
        PermissionDangerLevel::Normal
    }
}

/// The danger level of a permission token.
pub fn get_permission_danger_level(permission_id: &str) -> (r: PermissionDangerLevel)
    ensures
        r == spec_danger_level(permission_id@),
{
    if str_eq(permission_id, "execute_program") || str_eq(permission_id, "plugin_folder_access")
        || str_eq(permission_id, "ui.component.proxy") {
        PermissionDangerLevel::Critical
    } else if str_eq(permission_id, "fs") || str_eq(permission_id, "network") || str_eq(
        permission_id,
        "server",
    ) || str_eq(permission_id, "console") || str_eq(permission_id, "ui.component.write")
        || str_eq(permission_id, "ui.component.create") {
        PermissionDangerLevel::Dangerous
    } else {
        PermissionDangerLevel::Normal
    }
}

/// The full permission vocabulary with its display metadata; every entry's
/// danger level agrees with [`get_permission_danger_level`] on its token.
#[verifier::rlimit(100)]
pub fn get_all_permission_meta() -> (r: Vec<PermissionMeta>)
    ensures
        r@.len() == 16,
        r@[0].id@ == "log"@ && r@[1].id@ == "storage"@ && r@[2].id@ == "ui"@ && r@[3].id@
            == "element"@ && r@[4].id@ == "fs"@ && r@[5].id@ == "api"@ && r@[6].id@
            == "network"@ && r@[7].id@ == "system"@ && r@[8].id@ == "server"@ && r@[9].id@
            == "console"@ && r@[10].id@ == "execute_program"@ && r@[11].id@
            == "plugin_folder_access"@ && r@[12].id@ == "ui.component.read"@ && r@[13].id@
            == "ui.component.write"@ && r@[14].id@ == "ui.component.proxy"@ && r@[15].id@
            == "ui.component.create"@,
        forall|i: int|
            0 <= i < r@.len() ==> (#[trigger] r@[i]).danger_level == spec_danger_level(
                r@[i].id@,
            ),
{
    let mut metas: Vec<PermissionMeta> = Vec::new();
    metas.push(
        PermissionMeta {
            id: "log",
            name: "日志",
            description: "允许使用日志 API 输出调试信息",
            danger_level: PermissionDangerLevel::Normal,
            icon: "scroll-text",
        },
    );
    metas.push(
        PermissionMeta {
            id: "storage",
            name: "存储",
            description: "允许使用持久化存储 API",
            danger_level: PermissionDangerLevel::Normal,
            icon: "database",
        },
    );
    metas.push(
        PermissionMeta {
            id: "ui",
            name: "界面控制",
            description: "允许操作应用界面元素",
            danger_level: PermissionDangerLevel::Normal,
            icon: "layout",
        },
    );
    metas.push(
        PermissionMeta {
            id: "element",
            name: "元素交互",
            description: "允许读取和操作页面元素",
            danger_level: PermissionDangerLevel::Normal,
            icon: "mouse-pointer",
        },
    );
    metas.push(
        PermissionMeta {
            id: "fs",
            name: "文件系统",
            description: "允许在插件自身目录内读写文件",
            danger_level: PermissionDangerLevel::Dangerous,
            icon: "folder",
        },
    );
    metas.push(
        PermissionMeta {
            id: "api",
            name: "插件间通信",
            description: "允许调用其他插件注册的 API",
            danger_level: PermissionDangerLevel::Normal,
            icon: "plug",
        },
    );
    metas.push(
        PermissionMeta {
            id: "network",
            name: "网络访问",
            description: "允许发送 HTTP 请求",
            danger_level: PermissionDangerLevel::Dangerous,
            icon: "globe",
        },
    );
    metas.push(
        PermissionMeta {
            id: "system",
            name: "系统信息",
            description: "允许获取操作系统和硬件信息",
            danger_level: PermissionDangerLevel::Normal,
            icon: "cpu",
        },
    );
    metas.push(
        PermissionMeta {
            id: "server",
            name: "服务器管理",
            description: "允许管理 Minecraft 服务器",
            danger_level: PermissionDangerLevel::Dangerous,
            icon: "server",
        },
    );
    metas.push(
        PermissionMeta {
            id: "console",
            name: "控制台",
            description: "允许向服务器控制台发送命令",
            danger_level: PermissionDangerLevel::Dangerous,
            icon: "terminal",
        },
    );
    metas.push(
        PermissionMeta {
            id: "execute_program",
            name: "程序执行",
            description: "允许在插件目录内执行外部程序，可能带来严重安全风险",
            danger_level: PermissionDangerLevel::Critical,
            icon: "shield-alert",
        },
    );
    metas.push(
        PermissionMeta {
            id: "plugin_folder_access",
            name: "插件文件夹访问",
            description: "允许读写其他插件的文件和数据，可能影响其他插件的正常运行",
            danger_level: PermissionDangerLevel::Critical,
            icon: "folder-key",
        },
    );
    metas.push(
        PermissionMeta {
            id: "ui.component.read",
            name: "UI 组件读取",
            description: "允许读取页面内已注册的 UI 组件属性、列表及监听事件",
            danger_level: PermissionDangerLevel::Normal,
            icon: "eye",
        },
    );
    metas.push(
        PermissionMeta {
            id: "ui.component.write",
            name: "UI 组件写入",
            description: "允许修改页面内已注册的 UI 组件属性并调用其方法",
            danger_level: PermissionDangerLevel::Dangerous,
            icon: "pencil",
        },
    );
    metas.push(
        PermissionMeta {
            id: "ui.component.proxy",
            name: "UI 组件代理",
            description: "允许拦截并修改 UI 组件的交互事件，可阻断原始行为，需用户确认",
            danger_level: PermissionDangerLevel::Critical,
            icon: "shield",
        },
    );
    metas.push(
        PermissionMeta {
            id: "ui.component.create",
            name: "UI 组件创建",
            description: "允许插件动态创建新的 UI 组件并渲染到应用中",
            danger_level: PermissionDangerLevel::Dangerous,
            icon: "layout-grid",
        },
    );
    proof {
        reveal_strlit("log");
        reveal_strlit("storage");
        reveal_strlit("ui");
        reveal_strlit("element");
        reveal_strlit("fs");
        reveal_strlit("api");
        reveal_strlit("network");
        reveal_strlit("system");
        reveal_strlit("server");
        reveal_strlit("console");
        reveal_strlit("execute_program");
        reveal_strlit("plugin_folder_access");
        reveal_strlit("ui.component.read");
        reveal_strlit("ui.component.write");
        reveal_strlit("ui.component.proxy");
        reveal_strlit("ui.component.create");
        // Bring the lengths and the distinguishing characters of the
        // tokens into scope, so equal tokens are equal and distinct ones
        // distinct.
        assert("log"@.len() == 3);
        assert("storage"@.len() == 7);
        assert("ui"@.len() == 2);
        assert("element"@.len() == 7);
        assert("fs"@.len() == 2);
        assert("api"@.len() == 3);
        assert("network"@.len() == 7);
        assert("system"@.len() == 6);
        assert("server"@.len() == 6);
        assert("console"@.len() == 7);
        assert("execute_program"@.len() == 15);
        assert("plugin_folder_access"@.len() == 20);
        assert("ui.component.read"@.len() == 17);
        assert("ui.component.write"@.len() == 18);
        assert("ui.component.proxy"@.len() == 18);
        assert("ui.component.create"@.len() == 19);
        assert("element"@[0] != "network"@[0]);
        assert("element"@[0] != "console"@[0]);
        assert("storage"@[0] != "network"@[0]);
        assert("storage"@[0] != "console"@[0]);
        assert("system"@[1] != "server"@[1]);
        assert("ui"@[0] != "fs"@[0]);
        assert("log"@[0] != "api"@[0]);
        assert("ui.component.read"@[13] != "ui.component.write"@[13]);
        assert("ui.component.read"@[13] != "ui.component.proxy"@[13]);
        assert("ui.component.write"@[13] != "ui.component.proxy"@[13]);
        assert("ui.component.write"@[13] != "ui.component.create"@[13]);
        assert("ui.component.proxy"@[13] != "ui.component.create"@[13]);
        assert(metas@.len() == 16);
        assert forall|i: int|
            0 <= i < metas@.len() implies (#[trigger] metas@[i]).danger_level
            == spec_danger_level(metas@[i].id@) by {
            if i == 0 {
            } else if i == 1 {
            } else if i == 2 {
            } else if i == 3 {
            } else if i == 4 {
            } else if i == 5 {
            } else if i == 6 {
            } else if i == 7 {
            } else if i == 8 {
            } else if i == 9 {
            } else if i == 10 {
            } else if i == 11 {
            } else if i == 12 {
            } else if i == 13 {
            } else if i == 14 {
            } else {
                assert(i == 15);
            }
        }
    }
    metas
}

/// Where a loaded plugin stands in its lifecycle.
#[derive(Debug, Clone, PartialEq, Eq)]
pub enum PluginState {
    Loaded,
    Enabled,
    Disabled,
    Error(String),
}

/// An available update for an installed plugin.
#[derive(Debug, Clone, PartialEq, Eq)]
pub struct PluginUpdateInfo {
    pub plugin_id: String,
    pub current_version: String,
    pub latest_version: String,
    pub download_url: Option<String>,
    pub changelog: Option<String>,
}

/// The author named by a market listing.
#[derive(Debug, Clone, PartialEq, Eq)]
pub struct MarketAuthorInfo {
    pub name: String,
    pub url: Option<String>,
}

impl Default for MarketAuthorInfo {
    /// An unnamed author.
    fn default() -> (r: MarketAuthorInfo)
        ensures
            r.name@ == Seq::<char>::empty(),
            r.url is None,
    {
        MarketAuthorInfo { name: String::new(), url: None }
    }
}

/// A plugin-provided display name and description for one locale.
#[derive(Debug, Clone, PartialEq, Eq)]
pub struct PluginLocaleEntry {
    pub name: Option<String>,
    pub description: Option<String>,
}

/// One choice of a select-style setting field.
#[derive(Debug, Clone, PartialEq, Eq)]
pub struct PluginSettingOption {
    pub value: String,
    pub label: String,
}

/// The author block of a plugin manifest.
#[derive(Debug, Clone, PartialEq, Eq)]
pub struct PluginAuthor {
    pub name: String,
    pub email: Option<String>,
    pub url: Option<String>,
}

/// The host-version constraints of a plugin manifest.
#[derive(Debug, Clone, PartialEq, Eq)]
pub struct PluginEngines {
    pub sealantern: Option<String>,
}

/// A page a plugin contributes to the interface.
#[derive(Debug, Clone, PartialEq, Eq)]
pub struct PluginPage {
    pub id: String,
    pub title: String,
    pub path: String,
    pub icon: Option<String>,
}

/// A plugin's sidebar entry.
#[derive(Debug, Clone, PartialEq, Eq)]
pub struct PluginSidebarConfig {
    pub group: Option<String>,
    pub label: String,
    pub icon: Option<String>,
    pub priority: Option<i32>,
}

/// How a plugin appears in the sidebar.
#[derive(Debug, Clone, Copy, PartialEq, Eq, Structural)]
pub enum SidebarMode {
    Absent,
    SelfPage,
    Category,
}

impl Default for SidebarMode {
    /// No sidebar presence.
    fn default() -> (r: SidebarMode)
        ensures
            r == SidebarMode::Absent,
    {
        SidebarMode::Absent
    }
}

/// A sidebar category a plugin contributes.
#[derive(Debug, Clone, PartialEq, Eq)]
pub struct SidebarCategoryConfig {
    pub mode: SidebarMode,
    pub label: String,
    pub icon: Option<String>,
    pub show_dependents: bool,
    pub priority: Option<i32>,
    pub after: Option<String>,
}

/// A context-menu entry a plugin registers.
#[derive(Debug, Clone, PartialEq, Eq)]
pub struct PluginContextMenu {
    pub id: String,
    pub title: String,
    pub contexts: Vec<String>,
}

/// A command a plugin registers.
#[derive(Debug, Clone, PartialEq, Eq)]
pub struct PluginCommand {
    pub id: String,
    pub title: String,
    pub shortcut: Option<String>,
}

/// The user-interface block of a plugin manifest.
#[derive(Debug, Clone, PartialEq, Eq)]
pub struct PluginUiConfig {
    pub pages: Vec<PluginPage>,
    pub sidebar: Option<PluginSidebarConfig>,
    pub context_menus: Vec<PluginContextMenu>,
}

/// A dependency that an installed set of plugins does not meet.
#[derive(Debug, Clone, PartialEq, Eq)]
pub struct MissingDependency {
    pub id: String,
    pub version_requirement: Option<String>,
    pub required: bool,
}

/// One failure inside a batch install.
#[derive(Debug, Clone, PartialEq, Eq)]
pub struct BatchInstallError {
    pub path: String,
    pub error: String,
}

/// The custom color scheme a user may configure.
#[derive(Debug, Clone, PartialEq, Eq)]
pub struct CustomColorScheme {
    pub primary: String,
    pub primary_light: String,
    pub primary_dark: String,
    pub primary_bg: String,
    pub accent: String,
    pub accent_light: String,
    pub success: String,
    pub warning: String,
    pub error: String,
    pub info: String,
}

/// The kind of a background loading task.
#[derive(Debug, Clone, Copy, PartialEq, Eq, Structural)]
pub enum LoadTaskType {
    PluginScan,
    ConfigLoad,
    JavaDetect,
    ServerListLoad,
    SettingsLoad,
    MarketDataFetch,
}

/// Where a background loading task stands.
#[derive(Debug, Clone, PartialEq, Eq)]
pub enum LoadTaskStatus {
    Pending,
    Running,
    Completed,
    Failed(String),
}

/// A mod listing from a mod index.
#[derive(Debug, Clone, PartialEq, Eq)]
pub struct ModInfo {
    pub id: String,
    pub name: String,
    pub summary: String,
    pub download_url: String,
    pub file_name: String,
    pub source: String,
    pub icon_url: Option<String>,
    pub downloads: u64,
}

/// One page of a mod search.
#[derive(Debug, Clone, PartialEq, Eq)]
pub struct SearchModsResult {
    pub items: Vec<ModInfo>,
    pub total: u64,
    pub offset: u32,
    pub limit: u32,
}

/// An artist of a tracked song.
#[derive(Debug, Clone, PartialEq, Eq)]
pub struct Artist {
    pub id: u64,
    pub name: String,
}

/// An album of a tracked song.
#[derive(Debug, Clone, PartialEq, Eq)]
pub struct Album {
    pub id: u64,
    pub name: String,
    pub pic_url: Option<String>,
}

/// One tracked song.
#[derive(Debug, Clone, PartialEq, Eq)]
pub struct NCMMusic {
    pub id: u64,
    pub name: String,
    pub artists: Vec<Artist>,
    pub album: Album,
    pub duration: Option<i64>,
}

/// One page of a song search.
#[derive(Debug, Clone, PartialEq, Eq)]
pub struct SearchResult {
    pub songs: Vec<NCMMusic>,
    pub song_count: Option<i32>,
}

/// The server-core classification an index service publishes.
#[derive(Debug, Clone, PartialEq, Eq)]
pub struct ServerClassify {
    pub plugins_core: Vec<String>,
    pub plugins_and_mods_core: Vec<String>,
    pub mods_core_forge: Vec<String>,
    pub mods_core_fabric: Vec<String>,
    pub vanilla_core: Vec<String>,
    pub bedrock_core: Vec<String>,
    pub proxy_core: Vec<String>,
}

/// A resolved download target with its optional checksum.
#[derive(Debug, Clone, PartialEq, Eq)]
pub struct DownloadInfo {
    pub url: String,
    pub sha256: Option<String>,
}

/// The entry point for plugin folder management; the host performs the
/// archive and filesystem work behind it.
#[derive(Debug, Clone, Copy, PartialEq, Eq, Structural)]
pub struct PluginManager;

impl PluginManager {
    /// A manager handle; it carries no state of its own.
    pub fn new() -> (r: PluginManager)
        ensures
            r == PluginManager,
    {
        PluginManager
    }
}

} // verus!
