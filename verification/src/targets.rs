use vstd::prelude::*;
use crate::text::str_eq;

verus! {

/// How a cleanup item is carried out.
pub enum Action {
    /// Deletes what lies under these path templates.
    Paths(Vec<&'static str>),
    /// Empties the recycle bin of drive C.
    Recycle,
    /// Runs system commands; `size_paths` estimate the size, and the item is
    /// shown when one of them exists or `always_show` is set.
    System { size_paths: Vec<&'static str>, commands: Vec<Vec<&'static str>>, always_show: bool },
    /// Cannot be deleted directly: shows the size and opens a settings program.
    OpenSettings { size_paths: Vec<&'static str>, program: Vec<&'static str> },
}

/// One cleanup item.
pub struct Target {
    pub id: &'static str,
    pub name: &'static str,
    pub desc: &'static str,
    pub action: Action,
    /// Selected by default.
    pub default_on: bool,
    /// A system-level item, grouped apart and needing administrator rights.
    pub advanced: bool,
}

pub open spec fn str_views(v: Seq<&'static str>) -> Seq<Seq<char>> {
    v.map_values(|s: &'static str| s@)
}

pub open spec fn cmd_views(v: Seq<Vec<&'static str>>) -> Seq<Seq<Seq<char>>> {
    v.map_values(|c: Vec<&'static str>| str_views(c@))
}

/// An action as plain values.
pub enum ActionView {
    Paths(Seq<Seq<char>>),
    Recycle,
    System { size_paths: Seq<Seq<char>>, commands: Seq<Seq<Seq<char>>>, always_show: bool },
    OpenSettings { size_paths: Seq<Seq<char>>, program: Seq<Seq<char>> },
}

/// A cleanup item as plain values.
pub struct TargetView {
    pub id: Seq<char>,
    pub name: Seq<char>,
    pub desc: Seq<char>,
    pub action: ActionView,
    pub default_on: bool,
    pub advanced: bool,
}

impl Action {
    pub open spec fn view(&self) -> ActionView {
        match self {
            Action::Paths(p) => ActionView::Paths(str_views(p@)),
            Action::Recycle => ActionView::Recycle,
            Action::System { size_paths, commands, always_show } => ActionView::System {
                size_paths: str_views(size_paths@),
                commands: cmd_views(commands@),
                always_show: *always_show,
            },
            Action::OpenSettings { size_paths, program } => ActionView::OpenSettings {
                size_paths: str_views(size_paths@),
                program: str_views(program@),
            },
        }
    }
}

impl Target {
    pub open spec fn view(&self) -> TargetView {
        TargetView {
            id: self.id@,
            name: self.name@,
            desc: self.desc@,
            action: self.action.view(),
            default_on: self.default_on,
            advanced: self.advanced,
        }
    }
}

pub open spec fn target_views(v: Seq<Target>) -> Seq<TargetView> {
    v.map_values(|t: Target| t.view())
}

/// The cleanup catalogue, in display order.
pub open spec fn catalogue() -> Seq<TargetView> {
    seq![
        TargetView {
            id: "recycle"@,
            name: "回收站"@,
            desc: "清空 C 盘回收站"@,
            action: ActionView::Recycle,
            default_on: true,
            advanced: false,
        },
        TargetView {
            id: "user-temp"@,
            name: "临时文件"@,
            desc: "当前用户临时目录（%TEMP%）"@,
            action: ActionView::Paths(seq!["%TEMP%"@]),
            default_on: true,
            advanced: false,
        },
        TargetView {
            id: "win-temp"@,
            name: "系统临时文件"@,
            desc: "C:\\Windows\\Temp"@,
            action: ActionView::Paths(seq!["%WINDIR%\\Temp"@]),
            default_on: true,
            advanced: false,
        },
        TargetView {
            id: "browser-cache"@,
            name: "浏览器缓存"@,
            desc: "Edge / Chrome / Firefox 缓存（不动 Cookie、密码、历史）"@,
            action: ActionView::Paths(seq!["%LOCALAPPDATA%\\Microsoft\\Edge\\User Data\\*\\Cache"@, "%LOCALAPPDATA%\\Microsoft\\Edge\\User Data\\*\\Code Cache"@, "%LOCALAPPDATA%\\Microsoft\\Edge\\User Data\\*\\GPUCache"@, "%LOCALAPPDATA%\\Google\\Chrome\\User Data\\*\\Cache"@, "%LOCALAPPDATA%\\Google\\Chrome\\User Data\\*\\Code Cache"@, "%LOCALAPPDATA%\\Google\\Chrome\\User Data\\*\\GPUCache"@, "%LOCALAPPDATA%\\Mozilla\\Firefox\\Profiles\\*\\cache2"@]),
            default_on: true,
            advanced: false,
        },
        TargetView {
            id: "app-cache"@,
            name: "应用缓存"@,
            desc: "各类应用的 Cache / GPUCache（微信/QQ/Electron 等桌面应用，可重建）"@,
            action: ActionView::Paths(seq!["%APPDATA%\\*\\Cache"@, "%APPDATA%\\*\\Code Cache"@, "%APPDATA%\\*\\GPUCache"@, "%LOCALAPPDATA%\\*\\Cache"@, "%LOCALAPPDATA%\\*\\Code Cache"@, "%LOCALAPPDATA%\\*\\GPUCache"@, "%APPDATA%\\Tencent\\QQ\\*\\FileRecvTemp"@, "%LOCALAPPDATA%\\Packages\\*\\AC\\INetCache"@]),
            default_on: true,
            advanced: false,
        },
        TargetView {
            id: "thumb-cache"@,
            name: "缩略图缓存"@,
            desc: "资源管理器缩略图/图标缓存，自动重建"@,
            action: ActionView::Paths(seq!["%LOCALAPPDATA%\\Microsoft\\Windows\\Explorer\\thumbcache_*.db"@, "%LOCALAPPDATA%\\Microsoft\\Windows\\Explorer\\iconcache_*.db"@]),
            default_on: true,
            advanced: false,
        },
        TargetView {
            id: "font-cache"@,
            name: "字体缓存"@,
            desc: "字体缓存，自动重建"@,
            action: ActionView::Paths(seq!["%WINDIR%\\ServiceProfiles\\LocalService\\AppData\\Local\\FontCache"@]),
            default_on: true,
            advanced: false,
        },
        TargetView {
            id: "dx-cache"@,
            name: "着色器缓存"@,
            desc: "DirectX / NVIDIA 着色器缓存，自动重建"@,
            action: ActionView::Paths(seq!["%LOCALAPPDATA%\\D3DSCache"@, "%LOCALAPPDATA%\\NVIDIA\\DXCache"@, "%LOCALAPPDATA%\\NVIDIA\\GLCache"@]),
            default_on: true,
            advanced: false,
        },
        TargetView {
            id: "crash-dumps"@,
            name: "崩溃转储"@,
            desc: "蓝屏/程序崩溃 dump（常有数 GB）"@,
            action: ActionView::Paths(seq!["%LOCALAPPDATA%\\CrashDumps"@, "%WINDIR%\\Minidump"@, "%WINDIR%\\LiveKernelReports"@, "%WINDIR%\\MEMORY.DMP"@]),
            default_on: true,
            advanced: false,
        },
        TargetView {
            id: "wer"@,
            name: "错误报告"@,
            desc: "Windows 错误报告队列/存档（WER）"@,
            action: ActionView::Paths(seq!["C:\\ProgramData\\Microsoft\\Windows\\WER\\ReportQueue"@, "C:\\ProgramData\\Microsoft\\Windows\\WER\\ReportArchive"@, "C:\\ProgramData\\Microsoft\\Windows\\WER\\Temp"@, "%LOCALAPPDATA%\\Microsoft\\Windows\\WER\\ReportQueue"@, "%LOCALAPPDATA%\\Microsoft\\Windows\\WER\\ReportArchive"@]),
            default_on: true,
            advanced: false,
        },
        TargetView {
            id: "do-cache"@,
            name: "传递优化缓存"@,
            desc: "Windows 更新 P2P 分发缓存"@,
            action: ActionView::Paths(seq!["%WINDIR%\\ServiceProfiles\\NetworkService\\AppData\\Local\\Microsoft\\Windows\\DeliveryOptimization\\Cache"@]),
            default_on: true,
            advanced: false,
        },
        TargetView {
            id: "pkg-cache"@,
            name: "开发包缓存"@,
            desc: "npm / pip / NuGet / Yarn / cargo 下载缓存（可重新下载）"@,
            action: ActionView::Paths(seq!["%LOCALAPPDATA%\\npm-cache"@, "%APPDATA%\\npm-cache"@, "%LOCALAPPDATA%\\pip\\cache"@, "%LOCALAPPDATA%\\NuGet\\v3-cache"@, "%LOCALAPPDATA%\\Yarn\\Cache"@, "%LOCALAPPDATA%\\Yarn\\Berry\\cache"@, "%USERPROFILE%\\.cargo\\registry\\cache"@, "%USERPROFILE%\\.cargo\\registry\\src"@, "%USERPROFILE%\\.nuget\\packages"@]),
            default_on: false,
            advanced: false,
        },
        TargetView {
            id: "update-cache"@,
            name: "Windows 更新缓存"@,
            desc: "已下载的更新包（更新进行中清理可能出错，默认不选）"@,
            action: ActionView::Paths(seq!["%WINDIR%\\SoftwareDistribution\\Download"@]),
            default_on: false,
            advanced: false,
        },
        TargetView {
            id: "prefetch"@,
            name: "预读缓存"@,
            desc: "Prefetch，清后首次启动应用略慢"@,
            action: ActionView::Paths(seq!["%WINDIR%\\Prefetch"@]),
            default_on: false,
            advanced: false,
        },
        TargetView {
            id: "sys-logs"@,
            name: "系统组件日志"@,
            desc: "CBS / DISM / 更新日志，排障时有用"@,
            action: ActionView::Paths(seq!["%WINDIR%\\Logs\\CBS"@, "%WINDIR%\\Logs\\DISM"@, "%WINDIR%\\Logs\\WindowsUpdate"@]),
            default_on: false,
            advanced: false,
        },
        TargetView {
            id: "pagefile"@,
            name: "虚拟内存"@,
            desc: "pagefile.sys / swapfile.sys 由系统占用中，无法直接删除。点击打开系统设置，可调小或移到其他盘"@,
            action: ActionView::OpenSettings { size_paths: seq!["C:\\pagefile.sys"@, "C:\\swapfile.sys"@], program: seq!["SystemPropertiesPerformance.exe"@] },
            default_on: false,
            advanced: true,
        },
        TargetView {
            id: "hibernate"@,
            name: "休眠文件"@,
            desc: "关闭休眠并删除 hiberfil.sys（可回收数 GB，同时关闭快速启动，可用 powercfg /h on 恢复）"@,
            action: ActionView::System {
                size_paths: seq!["C:\\hiberfil.sys"@],
                commands: seq![seq!["powercfg"@, "/h"@, "off"@]],
                always_show: false,
            },
            default_on: false,
            advanced: true,
        },
        TargetView {
            id: "windows-old"@,
            name: "旧系统备份"@,
            desc: "删除 Windows.old（升级残留，删后无法回滚到旧系统）"@,
            action: ActionView::System {
                size_paths: seq!["C:\\Windows.old"@, "C:\\$Windows.~BT"@, "C:\\$Windows.~WS"@],
                commands: seq![seq!["takeown"@, "/f"@, "C:\\Windows.old"@, "/r"@, "/d"@, "y"@], seq!["icacls"@, "C:\\Windows.old"@, "/grant"@, "*S-1-5-32-544:F"@, "/t"@, "/c"@], seq!["cmd"@, "/c"@, "rd"@, "/s"@, "/q"@, "C:\\Windows.old"@], seq!["cmd"@, "/c"@, "rd"@, "/s"@, "/q"@, "C:\\$Windows.~BT"@], seq!["cmd"@, "/c"@, "rd"@, "/s"@, "/q"@, "C:\\$Windows.~WS"@]],
                always_show: false,
            },
            default_on: false,
            advanced: true,
        },
        TargetView {
            id: "winsxs"@,
            name: "组件存储清理"@,
            desc: "DISM 清理 WinSxS 中被取代的旧组件（较慢，可能数分钟）"@,
            action: ActionView::System {
                size_paths: seq![],
                commands: seq![seq!["Dism.exe"@, "/Online"@, "/Cleanup-Image"@, "/StartComponentCleanup"@]],
                always_show: true,
            },
            default_on: false,
            advanced: true,
        },
    ]
}

/// The cleanup catalogue, in display order.
#[verifier::rlimit(50)]
pub fn targets() -> (r: Vec<Target>)
    ensures
        target_views(r@) == catalogue(),
{
    let p1: Vec<&'static str> = vec!["%TEMP%"];
    assert(str_views(p1@) =~= seq!["%TEMP%"@]);
    let p2: Vec<&'static str> = vec!["%WINDIR%\\Temp"];
    assert(str_views(p2@) =~= seq!["%WINDIR%\\Temp"@]);
    let p3: Vec<&'static str> = vec!["%LOCALAPPDATA%\\Microsoft\\Edge\\User Data\\*\\Cache", "%LOCALAPPDATA%\\Microsoft\\Edge\\User Data\\*\\Code Cache", "%LOCALAPPDATA%\\Microsoft\\Edge\\User Data\\*\\GPUCache", "%LOCALAPPDATA%\\Google\\Chrome\\User Data\\*\\Cache", "%LOCALAPPDATA%\\Google\\Chrome\\User Data\\*\\Code Cache", "%LOCALAPPDATA%\\Google\\Chrome\\User Data\\*\\GPUCache", "%LOCALAPPDATA%\\Mozilla\\Firefox\\Profiles\\*\\cache2"];
    assert(str_views(p3@) =~= seq!["%LOCALAPPDATA%\\Microsoft\\Edge\\User Data\\*\\Cache"@, "%LOCALAPPDATA%\\Microsoft\\Edge\\User Data\\*\\Code Cache"@, "%LOCALAPPDATA%\\Microsoft\\Edge\\User Data\\*\\GPUCache"@, "%LOCALAPPDATA%\\Google\\Chrome\\User Data\\*\\Cache"@, "%LOCALAPPDATA%\\Google\\Chrome\\User Data\\*\\Code Cache"@, "%LOCALAPPDATA%\\Google\\Chrome\\User Data\\*\\GPUCache"@, "%LOCALAPPDATA%\\Mozilla\\Firefox\\Profiles\\*\\cache2"@]);
    let p4: Vec<&'static str> = vec!["%APPDATA%\\*\\Cache", "%APPDATA%\\*\\Code Cache", "%APPDATA%\\*\\GPUCache", "%LOCALAPPDATA%\\*\\Cache", "%LOCALAPPDATA%\\*\\Code Cache", "%LOCALAPPDATA%\\*\\GPUCache", "%APPDATA%\\Tencent\\QQ\\*\\FileRecvTemp", "%LOCALAPPDATA%\\Packages\\*\\AC\\INetCache"];
    assert(str_views(p4@) =~= seq!["%APPDATA%\\*\\Cache"@, "%APPDATA%\\*\\Code Cache"@, "%APPDATA%\\*\\GPUCache"@, "%LOCALAPPDATA%\\*\\Cache"@, "%LOCALAPPDATA%\\*\\Code Cache"@, "%LOCALAPPDATA%\\*\\GPUCache"@, "%APPDATA%\\Tencent\\QQ\\*\\FileRecvTemp"@, "%LOCALAPPDATA%\\Packages\\*\\AC\\INetCache"@]);
    let p5: Vec<&'static str> = vec!["%LOCALAPPDATA%\\Microsoft\\Windows\\Explorer\\thumbcache_*.db", "%LOCALAPPDATA%\\Microsoft\\Windows\\Explorer\\iconcache_*.db"];
    assert(str_views(p5@) =~= seq!["%LOCALAPPDATA%\\Microsoft\\Windows\\Explorer\\thumbcache_*.db"@, "%LOCALAPPDATA%\\Microsoft\\Windows\\Explorer\\iconcache_*.db"@]);
    let p6: Vec<&'static str> = vec!["%WINDIR%\\ServiceProfiles\\LocalService\\AppData\\Local\\FontCache"];
    assert(str_views(p6@) =~= seq!["%WINDIR%\\ServiceProfiles\\LocalService\\AppData\\Local\\FontCache"@]);
    let p7: Vec<&'static str> = vec!["%LOCALAPPDATA%\\D3DSCache", "%LOCALAPPDATA%\\NVIDIA\\DXCache", "%LOCALAPPDATA%\\NVIDIA\\GLCache"];
    assert(str_views(p7@) =~= seq!["%LOCALAPPDATA%\\D3DSCache"@, "%LOCALAPPDATA%\\NVIDIA\\DXCache"@, "%LOCALAPPDATA%\\NVIDIA\\GLCache"@]);
    let p8: Vec<&'static str> = vec!["%LOCALAPPDATA%\\CrashDumps", "%WINDIR%\\Minidump", "%WINDIR%\\LiveKernelReports", "%WINDIR%\\MEMORY.DMP"];
    assert(str_views(p8@) =~= seq!["%LOCALAPPDATA%\\CrashDumps"@, "%WINDIR%\\Minidump"@, "%WINDIR%\\LiveKernelReports"@, "%WINDIR%\\MEMORY.DMP"@]);
    let p9: Vec<&'static str> = vec!["C:\\ProgramData\\Microsoft\\Windows\\WER\\ReportQueue", "C:\\ProgramData\\Microsoft\\Windows\\WER\\ReportArchive", "C:\\ProgramData\\Microsoft\\Windows\\WER\\Temp", "%LOCALAPPDATA%\\Microsoft\\Windows\\WER\\ReportQueue", "%LOCALAPPDATA%\\Microsoft\\Windows\\WER\\ReportArchive"];
    assert(str_views(p9@) =~= seq!["C:\\ProgramData\\Microsoft\\Windows\\WER\\ReportQueue"@, "C:\\ProgramData\\Microsoft\\Windows\\WER\\ReportArchive"@, "C:\\ProgramData\\Microsoft\\Windows\\WER\\Temp"@, "%LOCALAPPDATA%\\Microsoft\\Windows\\WER\\ReportQueue"@, "%LOCALAPPDATA%\\Microsoft\\Windows\\WER\\ReportArchive"@]);
    let p10: Vec<&'static str> = vec!["%WINDIR%\\ServiceProfiles\\NetworkService\\AppData\\Local\\Microsoft\\Windows\\DeliveryOptimization\\Cache"];
    assert(str_views(p10@) =~= seq!["%WINDIR%\\ServiceProfiles\\NetworkService\\AppData\\Local\\Microsoft\\Windows\\DeliveryOptimization\\Cache"@]);
    let p11: Vec<&'static str> = vec!["%LOCALAPPDATA%\\npm-cache", "%APPDATA%\\npm-cache", "%LOCALAPPDATA%\\pip\\cache", "%LOCALAPPDATA%\\NuGet\\v3-cache", "%LOCALAPPDATA%\\Yarn\\Cache", "%LOCALAPPDATA%\\Yarn\\Berry\\cache", "%USERPROFILE%\\.cargo\\registry\\cache", "%USERPROFILE%\\.cargo\\registry\\src", "%USERPROFILE%\\.nuget\\packages"];
    assert(str_views(p11@) =~= seq!["%LOCALAPPDATA%\\npm-cache"@, "%APPDATA%\\npm-cache"@, "%LOCALAPPDATA%\\pip\\cache"@, "%LOCALAPPDATA%\\NuGet\\v3-cache"@, "%LOCALAPPDATA%\\Yarn\\Cache"@, "%LOCALAPPDATA%\\Yarn\\Berry\\cache"@, "%USERPROFILE%\\.cargo\\registry\\cache"@, "%USERPROFILE%\\.cargo\\registry\\src"@, "%USERPROFILE%\\.nuget\\packages"@]);
    let p12: Vec<&'static str> = vec!["%WINDIR%\\SoftwareDistribution\\Download"];
    assert(str_views(p12@) =~= seq!["%WINDIR%\\SoftwareDistribution\\Download"@]);
    let p13: Vec<&'static str> = vec!["%WINDIR%\\Prefetch"];
    assert(str_views(p13@) =~= seq!["%WINDIR%\\Prefetch"@]);
    let p14: Vec<&'static str> = vec!["%WINDIR%\\Logs\\CBS", "%WINDIR%\\Logs\\DISM", "%WINDIR%\\Logs\\WindowsUpdate"];
    assert(str_views(p14@) =~= seq!["%WINDIR%\\Logs\\CBS"@, "%WINDIR%\\Logs\\DISM"@, "%WINDIR%\\Logs\\WindowsUpdate"@]);
    let s15: Vec<&'static str> = vec!["C:\\pagefile.sys", "C:\\swapfile.sys"];
    assert(str_views(s15@) =~= seq!["C:\\pagefile.sys"@, "C:\\swapfile.sys"@]);
    let e15: Vec<&'static str> = vec!["SystemPropertiesPerformance.exe"];
    assert(str_views(e15@) =~= seq!["SystemPropertiesPerformance.exe"@]);
    let s16: Vec<&'static str> = vec!["C:\\hiberfil.sys"];
    assert(str_views(s16@) =~= seq!["C:\\hiberfil.sys"@]);
    let c16_0: Vec<&'static str> = vec!["powercfg", "/h", "off"];
    assert(str_views(c16_0@) =~= seq!["powercfg"@, "/h"@, "off"@]);
    let k16: Vec<Vec<&'static str>> = vec![c16_0];
    assert(cmd_views(k16@) =~= seq![seq!["powercfg"@, "/h"@, "off"@]]);
    let s17: Vec<&'static str> = vec!["C:\\Windows.old", "C:\\$Windows.~BT", "C:\\$Windows.~WS"];
    assert(str_views(s17@) =~= seq!["C:\\Windows.old"@, "C:\\$Windows.~BT"@, "C:\\$Windows.~WS"@]);
    let c17_0: Vec<&'static str> = vec!["takeown", "/f", "C:\\Windows.old", "/r", "/d", "y"];
    assert(str_views(c17_0@) =~= seq!["takeown"@, "/f"@, "C:\\Windows.old"@, "/r"@, "/d"@, "y"@]);
    let c17_1: Vec<&'static str> = vec!["icacls", "C:\\Windows.old", "/grant", "*S-1-5-32-544:F", "/t", "/c"];
    assert(str_views(c17_1@) =~= seq!["icacls"@, "C:\\Windows.old"@, "/grant"@, "*S-1-5-32-544:F"@, "/t"@, "/c"@]);
    let c17_2: Vec<&'static str> = vec!["cmd", "/c", "rd", "/s", "/q", "C:\\Windows.old"];
    assert(str_views(c17_2@) =~= seq!["cmd"@, "/c"@, "rd"@, "/s"@, "/q"@, "C:\\Windows.old"@]);
    let c17_3: Vec<&'static str> = vec!["cmd", "/c", "rd", "/s", "/q", "C:\\$Windows.~BT"];
    assert(str_views(c17_3@) =~= seq!["cmd"@, "/c"@, "rd"@, "/s"@, "/q"@, "C:\\$Windows.~BT"@]);
    let c17_4: Vec<&'static str> = vec!["cmd", "/c", "rd", "/s", "/q", "C:\\$Windows.~WS"];
    assert(str_views(c17_4@) =~= seq!["cmd"@, "/c"@, "rd"@, "/s"@, "/q"@, "C:\\$Windows.~WS"@]);
    let k17: Vec<Vec<&'static str>> = vec![c17_0, c17_1, c17_2, c17_3, c17_4];
    assert(cmd_views(k17@) =~= seq![seq!["takeown"@, "/f"@, "C:\\Windows.old"@, "/r"@, "/d"@, "y"@], seq!["icacls"@, "C:\\Windows.old"@, "/grant"@, "*S-1-5-32-544:F"@, "/t"@, "/c"@], seq!["cmd"@, "/c"@, "rd"@, "/s"@, "/q"@, "C:\\Windows.old"@], seq!["cmd"@, "/c"@, "rd"@, "/s"@, "/q"@, "C:\\$Windows.~BT"@], seq!["cmd"@, "/c"@, "rd"@, "/s"@, "/q"@, "C:\\$Windows.~WS"@]]);
    let s18: Vec<&'static str> = vec![];
    assert(str_views(s18@) =~= seq![]);
    let c18_0: Vec<&'static str> = vec!["Dism.exe", "/Online", "/Cleanup-Image", "/StartComponentCleanup"];
    assert(str_views(c18_0@) =~= seq!["Dism.exe"@, "/Online"@, "/Cleanup-Image"@, "/StartComponentCleanup"@]);
    let k18: Vec<Vec<&'static str>> = vec![c18_0];
    assert(cmd_views(k18@) =~= seq![seq!["Dism.exe"@, "/Online"@, "/Cleanup-Image"@, "/StartComponentCleanup"@]]);
    let r = vec![
        Target {
            id: "recycle",
            name: "回收站",
            desc: "清空 C 盘回收站",
            action: Action::Recycle,
            default_on: true,
            advanced: false,
        },
        Target {
            id: "user-temp",
            name: "临时文件",
            desc: "当前用户临时目录（%TEMP%）",
            action: Action::Paths(p1),
            default_on: true,
            advanced: false,
        },
        Target {
            id: "win-temp",
            name: "系统临时文件",
            desc: "C:\\Windows\\Temp",
            action: Action::Paths(p2),
            default_on: true,
            advanced: false,
        },
        Target {
            id: "browser-cache",
            name: "浏览器缓存",
            desc: "Edge / Chrome / Firefox 缓存（不动 Cookie、密码、历史）",
            action: Action::Paths(p3),
            default_on: true,
            advanced: false,
        },
        Target {
            id: "app-cache",
            name: "应用缓存",
            desc: "各类应用的 Cache / GPUCache（微信/QQ/Electron 等桌面应用，可重建）",
            action: Action::Paths(p4),
            default_on: true,
            advanced: false,
        },
        Target {
            id: "thumb-cache",
            name: "缩略图缓存",
            desc: "资源管理器缩略图/图标缓存，自动重建",
            action: Action::Paths(p5),
            default_on: true,
            advanced: false,
        },
        Target {
            id: "font-cache",
            name: "字体缓存",
            desc: "字体缓存，自动重建",
            action: Action::Paths(p6),
            default_on: true,
            advanced: false,
        },
        Target {
            id: "dx-cache",
            name: "着色器缓存",
            desc: "DirectX / NVIDIA 着色器缓存，自动重建",
            action: Action::Paths(p7),
            default_on: true,
            advanced: false,
        },
        Target {
            id: "crash-dumps",
            name: "崩溃转储",
            desc: "蓝屏/程序崩溃 dump（常有数 GB）",
            action: Action::Paths(p8),
            default_on: true,
            advanced: false,
        },
        Target {
            id: "wer",
            name: "错误报告",
            desc: "Windows 错误报告队列/存档（WER）",
            action: Action::Paths(p9),
            default_on: true,
            advanced: false,
        },
        Target {
            id: "do-cache",
            name: "传递优化缓存",
            desc: "Windows 更新 P2P 分发缓存",
            action: Action::Paths(p10),
            default_on: true,
            advanced: false,
        },
        Target {
            id: "pkg-cache",
            name: "开发包缓存",
            desc: "npm / pip / NuGet / Yarn / cargo 下载缓存（可重新下载）",
            action: Action::Paths(p11),
            default_on: false,
            advanced: false,
        },
        Target {
            id: "update-cache",
            name: "Windows 更新缓存",
            desc: "已下载的更新包（更新进行中清理可能出错，默认不选）",
            action: Action::Paths(p12),
            default_on: false,
            advanced: false,
        },
        Target {
            id: "prefetch",
            name: "预读缓存",
            desc: "Prefetch，清后首次启动应用略慢",
            action: Action::Paths(p13),
            default_on: false,
            advanced: false,
        },
        Target {
            id: "sys-logs",
            name: "系统组件日志",
            desc: "CBS / DISM / 更新日志，排障时有用",
            action: Action::Paths(p14),
            default_on: false,
            advanced: false,
        },
        Target {
            id: "pagefile",
            name: "虚拟内存",
            desc: "pagefile.sys / swapfile.sys 由系统占用中，无法直接删除。点击打开系统设置，可调小或移到其他盘",
            action: Action::OpenSettings { size_paths: s15, program: e15 },
            default_on: false,
            advanced: true,
        },
        Target {
            id: "hibernate",
            name: "休眠文件",
            desc: "关闭休眠并删除 hiberfil.sys（可回收数 GB，同时关闭快速启动，可用 powercfg /h on 恢复）",
            action: Action::System { size_paths: s16, commands: k16, always_show: false },
            default_on: false,
            advanced: true,
        },
        Target {
            id: "windows-old",
            name: "旧系统备份",
            desc: "删除 Windows.old（升级残留，删后无法回滚到旧系统）",
            action: Action::System { size_paths: s17, commands: k17, always_show: false },
            default_on: false,
            advanced: true,
        },
        Target {
            id: "winsxs",
            name: "组件存储清理",
            desc: "DISM 清理 WinSxS 中被取代的旧组件（较慢，可能数分钟）",
            action: Action::System { size_paths: s18, commands: k18, always_show: true },
            default_on: false,
            advanced: true,
        },
    ];
    assert(target_views(r@) =~= catalogue());
    r
}

/// The catalogue: item identifiers are distinct; the system items are
/// exactly the advanced ones, none of them is selected by default and all of
/// them carry the `caution` level; every other item is always shown.
pub proof fn law_catalogue_shape()
    ensures
        catalogue().len() == 19,
        forall|i: int, j: int|
            0 <= i < j < catalogue().len() ==> catalogue()[i].id != catalogue()[j].id,
        forall|i: int|
            0 <= i < catalogue().len() ==> (#[trigger] catalogue()[i].advanced <==> (
            catalogue()[i].action is System || catalogue()[i].action is OpenSettings)),
        forall|i: int|
            0 <= i < catalogue().len() && #[trigger] catalogue()[i].advanced ==> !catalogue()[i].default_on
                && spec_level_of(catalogue()[i].id) == "caution"@,
        forall|i: int|
            0 <= i < catalogue().len() && !#[trigger] catalogue()[i].advanced ==> (
            spec_is_relevant(catalogue()[i].action, true) && spec_is_relevant(
                catalogue()[i].action,
                false,
            )),
{
    reveal_strlit("recycle");
    reveal_strlit("user-temp");
    reveal_strlit("win-temp");
    reveal_strlit("browser-cache");
    reveal_strlit("app-cache");
    reveal_strlit("thumb-cache");
    reveal_strlit("font-cache");
    reveal_strlit("dx-cache");
    reveal_strlit("crash-dumps");
    reveal_strlit("wer");
    reveal_strlit("do-cache");
    reveal_strlit("pkg-cache");
    reveal_strlit("update-cache");
    reveal_strlit("prefetch");
    reveal_strlit("sys-logs");
    reveal_strlit("pagefile");
    reveal_strlit("hibernate");
    reveal_strlit("windows-old");
    reveal_strlit("winsxs");
    reveal_strlit("redownload");
    reveal_strlit("caution");
    reveal_strlit("safe");
    assert(catalogue()[0].id == "recycle"@);
    assert("recycle"@.len() == 7);
    assert(catalogue()[1].id == "user-temp"@);
    assert("user-temp"@.len() == 9);
    assert(catalogue()[2].id == "win-temp"@);
    assert("win-temp"@.len() == 8);
    assert(catalogue()[3].id == "browser-cache"@);
    assert("browser-cache"@.len() == 13);
    assert(catalogue()[4].id == "app-cache"@);
    assert("app-cache"@.len() == 9);
    assert(catalogue()[5].id == "thumb-cache"@);
    assert("thumb-cache"@.len() == 11);
    assert(catalogue()[6].id == "font-cache"@);
    assert("font-cache"@.len() == 10);
    assert(catalogue()[7].id == "dx-cache"@);
    assert("dx-cache"@.len() == 8);
    assert(catalogue()[8].id == "crash-dumps"@);
    assert("crash-dumps"@.len() == 11);
    assert(catalogue()[9].id == "wer"@);
    assert("wer"@.len() == 3);
    assert(catalogue()[10].id == "do-cache"@);
    assert("do-cache"@.len() == 8);
    assert(catalogue()[11].id == "pkg-cache"@);
    assert("pkg-cache"@.len() == 9);
    assert(catalogue()[12].id == "update-cache"@);
    assert("update-cache"@.len() == 12);
    assert(catalogue()[13].id == "prefetch"@);
    assert("prefetch"@.len() == 8);
    assert(catalogue()[14].id == "sys-logs"@);
    assert("sys-logs"@.len() == 8);
    assert(catalogue()[15].id == "pagefile"@);
    assert("pagefile"@.len() == 8);
    assert(catalogue()[16].id == "hibernate"@);
    assert("hibernate"@.len() == 9);
    assert(catalogue()[17].id == "windows-old"@);
    assert("windows-old"@.len() == 11);
    assert(catalogue()[18].id == "winsxs"@);
    assert("winsxs"@.len() == 6);
    assert("user-temp"@[0] != "app-cache"@[0]);
    assert("user-temp"@[0] != "pkg-cache"@[0]);
    assert("user-temp"@[0] != "hibernate"@[0]);
    assert("win-temp"@[0] != "dx-cache"@[0]);
    assert("win-temp"@[0] != "do-cache"@[0]);
    assert("win-temp"@[0] != "prefetch"@[0]);
    assert("win-temp"@[0] != "sys-logs"@[0]);
    assert("win-temp"@[0] != "pagefile"@[0]);
    assert("app-cache"@[0] != "pkg-cache"@[0]);
    assert("app-cache"@[0] != "hibernate"@[0]);
    assert("thumb-cache"@[0] != "crash-dumps"@[0]);
    assert("thumb-cache"@[0] != "windows-old"@[0]);
    assert("dx-cache"@[1] != "do-cache"@[1]);
    assert("dx-cache"@[0] != "prefetch"@[0]);
    assert("dx-cache"@[0] != "sys-logs"@[0]);
    assert("dx-cache"@[0] != "pagefile"@[0]);
    assert("crash-dumps"@[0] != "windows-old"@[0]);
    assert("do-cache"@[0] != "prefetch"@[0]);
    assert("do-cache"@[0] != "sys-logs"@[0]);
    assert("do-cache"@[0] != "pagefile"@[0]);
    assert("pkg-cache"@[0] != "hibernate"@[0]);
    assert("prefetch"@[0] != "sys-logs"@[0]);
    assert("prefetch"@[1] != "pagefile"@[1]);
    assert("sys-logs"@[0] != "pagefile"@[0]);
    assert forall|i: int, j: int| 0 <= i < j < catalogue().len() implies catalogue()[i].id
        != catalogue()[j].id by {}
    assert forall|i: int| 0 <= i < catalogue().len() && #[trigger] catalogue()[i].advanced implies !catalogue()[i].default_on
        && spec_level_of(catalogue()[i].id) == "caution"@ by {}
}

/// The component-store cleanup is always shown; the hibernation file and the
/// old Windows installation only when one of their size paths exists.
pub proof fn law_system_items_visibility(b: bool)
    ensures
        catalogue()[18].id == "winsxs"@,
        spec_is_relevant(catalogue()[18].action, b),
        catalogue()[16].id == "hibernate"@,
        spec_is_relevant(catalogue()[16].action, b) == b,
        catalogue()[17].id == "windows-old"@,
        spec_is_relevant(catalogue()[17].action, b) == b,
        catalogue()[15].id == "pagefile"@,
        spec_is_relevant(catalogue()[15].action, b) == b,
{
}

/// Whether an item with action `a` is shown, given whether one of its size
/// paths exists on this machine: system items only when one exists (or when
/// they are always shown), settings items only when one exists, all others always.
pub open spec fn spec_is_relevant(a: ActionView, any_size_path_exists: bool) -> bool {
    match a {
        ActionView::System { always_show, .. } => always_show || any_size_path_exists,
        ActionView::OpenSettings { .. } => any_size_path_exists,
        _ => true,
    }
}

impl Target {
    /// Whether this item is shown on this machine; `any_size_path_exists`
    /// tells whether one of the expanded size paths of its action exists.
    pub fn is_relevant(&self, any_size_path_exists: bool) -> (r: bool)
        ensures
            r == spec_is_relevant(self.view().action, any_size_path_exists),
    {
        match &self.action {
            Action::System { always_show, .. } => *always_show || any_size_path_exists,
            Action::OpenSettings { .. } => any_size_path_exists,
            _ => true,
        }
    }
}

/// The safety level shown for the item `id`.
pub open spec fn spec_level_of(id: Seq<char>) -> Seq<char> {
    if id == "pkg-cache"@ {
        "redownload"@
    } else if id == "update-cache"@ || id == "pagefile"@ || id == "hibernate"@ || id
        == "windows-old"@ || id == "winsxs"@ {
        "caution"@
    } else {
        "safe"@
    }
}

/// Safety level of an item: `redownload` for package caches, `caution` for
/// the update cache and the system items, `safe` for everything else.
pub fn level_of(id: &str) -> (r: &'static str)
    ensures
        r@ == spec_level_of(id@),
{
    if str_eq(id, "pkg-cache") {
        "redownload"
    } else if str_eq(id, "update-cache") || str_eq(id, "pagefile") || str_eq(id, "hibernate")
        || str_eq(id, "windows-old") || str_eq(id, "winsxs") {
        "caution"
    } else {
        "safe"
    }
}

/// Some item of `cat` has the identifier `id`.
pub open spec fn has_id(cat: Seq<TargetView>, id: Seq<char>) -> bool {
    exists|i: int| 0 <= i < cat.len() && #[trigger] cat[i].id == id
}

/// The item of the catalogue named `id`, or the message that there is none.
pub fn find(id: &str) -> (r: Result<Target, String>)
    ensures
        r is Ok <==> has_id(catalogue(), id@),
        r matches Ok(t) ==> exists|i: int|
            0 <= i < catalogue().len() && #[trigger] catalogue()[i] == t.view() && t.view().id
                == id@,
        r matches Err(e) ==> e@ == "未知清理项: "@ + id@,
{
    let mut all = targets();
    let mut i: usize = 0;
    while i < all.len()
        invariant
            target_views(all@) == catalogue(),
            i <= all.len(),
            forall|j: int| 0 <= j < i ==> catalogue()[j].id != id@,
        decreases all.len() - i,
    {
        assert(all@[i as int].view() == catalogue()[i as int]);
        if str_eq(all[i].id, id) {
            assert(catalogue()[i as int].id == id@);
            let t = all.remove(i);
            return Ok(t);
        }
        i += 1;
    }
    let mut msg = String::from_str("未知清理项: ");
    msg.append(id);
    Err(msg)
}

/// What the item list shows of one item.
pub struct TargetInfo {
    pub id: &'static str,
    pub name: &'static str,
    pub desc: &'static str,
    pub default_on: bool,
    pub advanced: bool,
    /// Opens a settings program instead of deleting; left out of the total.
    pub opens_settings: bool,
    /// Lists its expanded paths one by one for selection.
    pub expandable: bool,
    /// `safe`, `redownload` or `caution`.
    pub level: &'static str,
}

/// An item summary as plain values.
pub struct TargetInfoView {
    pub id: Seq<char>,
    pub name: Seq<char>,
    pub desc: Seq<char>,
    pub default_on: bool,
    pub advanced: bool,
    pub opens_settings: bool,
    pub expandable: bool,
    pub level: Seq<char>,
}

impl TargetInfo {
    pub open spec fn view(&self) -> TargetInfoView {
        TargetInfoView {
            id: self.id@,
            name: self.name@,
            desc: self.desc@,
            default_on: self.default_on,
            advanced: self.advanced,
            opens_settings: self.opens_settings,
            expandable: self.expandable,
            level: self.level@,
        }
    }
}

/// The summary shown for `t`.
pub open spec fn info_of(t: TargetView) -> TargetInfoView {
    TargetInfoView {
        id: t.id,
        name: t.name,
        desc: t.desc,
        default_on: t.default_on,
        advanced: t.advanced,
        opens_settings: t.action is OpenSettings,
        expandable: t.action is Paths,
        level: spec_level_of(t.id),
    }
}

pub open spec fn info_views(v: Seq<TargetInfo>) -> Seq<TargetInfoView> {
    v.map_values(|t: TargetInfo| t.view())
}

/// Whether the size paths of item `k` exist, as told by `exists` (absent entries count as no).
pub open spec fn flag_at(exists: Seq<bool>, k: int) -> bool {
    0 <= k < exists.len() && exists[k]
}

/// The summaries of the items of `cat` that are shown, in order; `exists[k]`
/// tells whether a size path of item `k` exists.
pub open spec fn spec_list_targets(cat: Seq<TargetView>, exists: Seq<bool>) -> Seq<TargetInfoView>
    decreases cat.len(),
{
    if cat.len() == 0 {
        seq![]
    } else {
        let prev = spec_list_targets(cat.drop_last(), exists);
        if spec_is_relevant(cat.last().action, flag_at(exists, cat.len() - 1)) {
            prev.push(info_of(cat.last()))
        } else {
            prev
        }
    }
}

fn info(t: &Target) -> (r: TargetInfo)
    ensures
        r.view() == info_of(t.view()),
{
    TargetInfo {
        id: t.id,
        name: t.name,
        desc: t.desc,
        default_on: t.default_on,
        advanced: t.advanced,
        opens_settings: match &t.action {
            Action::OpenSettings { .. } => true,
            _ => false,
        },
        expandable: match &t.action {
            Action::Paths(_) => true,
            _ => false,
        },
        level: level_of(t.id),
    }
}

/// The summaries of the catalogue items shown on this machine;
/// `any_size_path_exists[k]` tells whether a size path of item `k` exists.
pub fn list_targets(any_size_path_exists: &Vec<bool>) -> (r: Vec<TargetInfo>)
    ensures
        info_views(r@) == spec_list_targets(catalogue(), any_size_path_exists@),
{
    let all = targets();
    let ghost ex = any_size_path_exists@;
    let mut out: Vec<TargetInfo> = Vec::new();
    let mut i: usize = 0;
    while i < all.len()
        invariant
            target_views(all@) == catalogue(),
            i <= all.len(),
            ex == any_size_path_exists@,
            info_views(out@) == spec_list_targets(catalogue().take(i as int), ex),
        decreases all.len() - i,
    {
        let ghost cat = catalogue();
        assert(cat.take(i + 1).drop_last() =~= cat.take(i as int));
        assert(cat.take(i + 1).last() == all@[i as int].view());
        let flag = i < any_size_path_exists.len() && any_size_path_exists[i];
        if all[i].is_relevant(flag) {
            let ghost before = info_views(out@);
            out.push(info(&all[i]));
            assert(info_views(out@) =~= before.push(info_of(all@[i as int].view())));
        }
        i += 1;
    }
    assert(catalogue().take(all.len() as int) =~= catalogue());
    out
}

proof fn lemma_list_contains(cat: Seq<TargetView>, exists: Seq<bool>, i: int)
    requires
        0 <= i < cat.len(),
        spec_is_relevant(cat[i].action, flag_at(exists, i)),
    ensures
        spec_list_targets(cat, exists).contains(info_of(cat[i])),
    decreases cat.len(),
{
    let prev = spec_list_targets(cat.drop_last(), exists);
    let r = spec_list_targets(cat, exists);
    if i == cat.len() - 1 {
        assert(r[r.len() - 1] == info_of(cat[i]));
    } else {
        assert(cat.drop_last()[i] == cat[i]);
        lemma_list_contains(cat.drop_last(), exists, i);
        let k = choose|k: int| 0 <= k < prev.len() && prev[k] == info_of(cat[i]);
        assert(r[k] == prev[k]);
    }
}

proof fn lemma_list_members(cat: Seq<TargetView>, exists: Seq<bool>)
    ensures
        forall|k: int|
            0 <= k < spec_list_targets(cat, exists).len() ==> exists|i: int|
                0 <= i < cat.len() && #[trigger] spec_list_targets(cat, exists)[k] == info_of(
                    cat[i],
                ),
    decreases cat.len(),
{
    if cat.len() > 0 {
        lemma_list_members(cat.drop_last(), exists);
        let prev = spec_list_targets(cat.drop_last(), exists);
        let r = spec_list_targets(cat, exists);
        assert forall|k: int| 0 <= k < r.len() implies exists|i: int|
            0 <= i < cat.len() && #[trigger] r[k] == info_of(cat[i]) by {
            if k < prev.len() {
                assert(r[k] == prev[k]);
                let i = choose|i: int|
                    0 <= i < cat.drop_last().len() && #[trigger] prev[k] == info_of(
                        cat.drop_last()[i],
                    );
                assert(cat.drop_last()[i] == cat[i]);
            } else {
                assert(r[k] == info_of(cat[cat.len() - 1]));
            }
        }
    }
}

/// The item list shows every ordinary (non-system) item whatever exists on
/// the machine, and every summary it shows is that of a catalogue item.
pub proof fn law_list_shows_ordinary_items(exists: Seq<bool>)
    ensures
        forall|i: int|
            0 <= i < catalogue().len() && !#[trigger] catalogue()[i].advanced ==> spec_list_targets(
                catalogue(),
                exists,
            ).contains(info_of(catalogue()[i])),
        forall|k: int|
            0 <= k < spec_list_targets(catalogue(), exists).len() ==> exists|i: int|
                0 <= i < catalogue().len() && #[trigger] spec_list_targets(catalogue(), exists)[k]
                    == info_of(catalogue()[i]),
{
    law_catalogue_shape();
    assert forall|i: int|
        0 <= i < catalogue().len() && !#[trigger] catalogue()[i].advanced implies spec_list_targets(
        catalogue(),
        exists,
    ).contains(info_of(catalogue()[i])) by {
        assert(spec_is_relevant(catalogue()[i].action, flag_at(exists, i)));
        lemma_list_contains(catalogue(), exists, i);
    }
    lemma_list_members(catalogue(), exists);
}

/// Every summary in the item list describes the catalogue item with its
/// identifier: the same name, description and flags; it opens a settings
/// program exactly when the item's action does (never for a system item
/// that runs a command), it lists paths exactly when the item's action is a
/// path list, and its level is `redownload` for the package cache, `caution`
/// for the update cache and the advanced items, and `safe` otherwise.
pub proof fn law_summaries_describe_their_items(exists: Seq<bool>)
    ensures
        forall|k: int, i: int|
            0 <= k < spec_list_targets(catalogue(), exists).len() && 0 <= i < catalogue().len()
                && #[trigger] spec_list_targets(catalogue(), exists)[k].id == #[trigger] catalogue()[i].id
                ==> {
                let s = spec_list_targets(catalogue(), exists)[k];
                let t = catalogue()[i];
                &&& s.name == t.name
                &&& s.desc == t.desc
                &&& s.default_on == t.default_on
                &&& s.advanced == t.advanced
                &&& (s.opens_settings <==> t.action is OpenSettings)
                &&& (t.action is System ==> !s.opens_settings)
                &&& (s.expandable <==> t.action is Paths)
                &&& s.level == if t.id == "pkg-cache"@ {
                    "redownload"@
                } else if t.id == "update-cache"@ || t.advanced {
                    "caution"@
                } else {
                    "safe"@
                }
            },
{
    law_catalogue_shape();
    law_system_items_visibility(true);
    lemma_list_members(catalogue(), exists);
    let l = spec_list_targets(catalogue(), exists);
    let cat = catalogue();
    assert forall|k: int, i: int|
        0 <= k < l.len() && 0 <= i < cat.len() && #[trigger] l[k].id == #[trigger] cat[i].id implies {
        let s = l[k];
        let t = cat[i];
        &&& s.name == t.name
        &&& s.desc == t.desc
        &&& s.default_on == t.default_on
        &&& s.advanced == t.advanced
        &&& (s.opens_settings <==> t.action is OpenSettings)
        &&& (t.action is System ==> !s.opens_settings)
        &&& (s.expandable <==> t.action is Paths)
        &&& s.level == if t.id == "pkg-cache"@ {
            "redownload"@
        } else if t.id == "update-cache"@ || t.advanced {
            "caution"@
        } else {
            "safe"@
        }
    } by {
        let i0 = choose|i0: int| 0 <= i0 < cat.len() && #[trigger] l[k] == info_of(cat[i0]);
        if i0 != i {
            if i0 < i {
                assert(cat[i0].id != cat[i].id);
            } else {
                assert(cat[i].id != cat[i0].id);
            }
        }
        assert(i0 == i);
        let t = cat[i];
        if !t.advanced {
            assert(t.id != cat[15].id && t.id != cat[16].id && t.id != cat[17].id && t.id
                != cat[18].id) by {
                assert(cat[15].advanced && cat[16].advanced && cat[17].advanced && cat[18].advanced);
            }
        }
    }
}

} // verus!
