use vstd::prelude::*;

verus! {

/// The input modes of Zellij.
#[derive(Debug, Clone, Copy, PartialEq, Eq, Structural)]
pub enum InputMode {
    Normal,
    Locked,
    Resize,
    Pane,
    Tab,
    Scroll,
    EnterSearch,
    Search,
    RenameTab,
    RenamePane,
    Session,
    Move,
    Prompt,
    Tmux,
}

/// Where Zellij copied a selection to.
#[derive(Debug, Clone, Copy, PartialEq, Eq, Structural)]
pub enum CopyDestination {
    Command,
    Primary,
    System,
}

/// A key hint: the key, what it does, and how early it is dropped when space runs out
/// (priority 1 stays longest).
#[derive(Debug, Clone, Copy, PartialEq, Eq)]
pub struct HintItem {
    pub key: &'static str,
    pub label: &'static str,
    pub priority: u8,
}

/// A titled group of key hints, optionally under a modifier prefix such as `Ctrl`.
#[derive(Debug, Clone, PartialEq, Eq)]
pub struct HintGroup {
    pub title: &'static str,
    pub prefix: Option<&'static str>,
    pub items: Vec<HintItem>,
}

/// What a hint group holds, its items as a sequence.
pub struct HintGroupSpec {
    pub title: &'static str,
    pub prefix: Option<&'static str>,
    pub items: Seq<HintItem>,
}

pub open spec fn group_spec(g: HintGroup) -> HintGroupSpec {
    HintGroupSpec { title: g.title, prefix: g.prefix, items: g.items@ }
}

pub open spec fn group_specs(gs: Seq<HintGroup>) -> Seq<HintGroupSpec> {
    gs.map_values(|g: HintGroup| group_spec(g))
}

pub open spec fn spec_mode_name(mode: InputMode) -> Seq<char> {
    match mode {
        InputMode::Normal => "普通"@,
        InputMode::Locked => "锁定"@,
        InputMode::Pane => "窗格"@,
        InputMode::Tab => "标签"@,
        InputMode::Resize => "调整"@,
        InputMode::Move => "移动"@,
        InputMode::Search => "搜索"@,
        InputMode::Scroll => "滚动"@,
        InputMode::Session => "会话"@,
        InputMode::Tmux => "Tmux"@,
        InputMode::Prompt => "提示"@,
        InputMode::EnterSearch => "输入搜索"@,
        InputMode::RenameTab => "重命名标签"@,
        InputMode::RenamePane => "重命名窗格"@,
    }
}

/// The Chinese name of a mode.
pub fn mode_name(mode: InputMode) -> (s: &'static str)
    ensures
        s@ == spec_mode_name(mode),
{
    match mode {
        InputMode::Normal => "普通",
        InputMode::Locked => "锁定",
        InputMode::Pane => "窗格",
        InputMode::Tab => "标签",
        InputMode::Resize => "调整",
        InputMode::Move => "移动",
        InputMode::Search => "搜索",
        InputMode::Scroll => "滚动",
        InputMode::Session => "会话",
        InputMode::Tmux => "Tmux",
        InputMode::Prompt => "提示",
        InputMode::EnterSearch => "输入搜索",
        InputMode::RenameTab => "重命名标签",
        InputMode::RenamePane => "重命名窗格",
    }
}

pub open spec fn spec_mode_hint(mode: InputMode) -> Seq<char> {
    match mode {
        InputMode::Normal => "Ctrl+p 窗格 | Ctrl+t 标签 | Ctrl+n 调整 | Ctrl+h 移动 | Ctrl+s 滚动 | Ctrl+o 会话 | Alt+n 新窗格 | Alt+f 浮动 | Alt+i/o 移标签 | Ctrl+q 退出"@,
        InputMode::Locked => "界面已锁定 | Ctrl+g 解锁"@,
        InputMode::Pane => "d 下分屏 | r 右分屏 | n 自动窗格 | s 堆叠 | x 关闭 | f 全屏 | z 框架 | e 浮动/嵌入 | w 显示浮动 | c 重命名 | p 切焦点 | hjkl/方向 切换"@,
        InputMode::Tab => "n 新建 | x 关闭 | r 重命名 | s 同步 | 1-9 跳转 | Tab 最近标签 | h/l/←→ 切换 | [/] 拆分 | b 拆出"@,
        InputMode::Resize => "+/= 放大 | - 缩小 | hjkl/方向 调整 | Ctrl+n 返回"@,
        InputMode::Move => "n/Tab 下个位置 | p 上个位置 | hjkl/方向 移动 | Ctrl+h 返回"@,
        InputMode::Search | InputMode::EnterSearch => "s 输入关键词 | Enter 确认 | n 下一个 | p 上一个 | c 大小写 | w 全词 | o 循环 | Esc 返回"@,
        InputMode::Scroll => "s 搜索 | e 编辑回滚 | j/k/方向 滚动 | Ctrl+u/d 半页 | PageUp/Down 翻页 | Ctrl+c 底部"@,
        InputMode::Session => "d 分离 | w 会话管理 | p 插件管理 | c 配置 | l 布局 | a 关于 | Ctrl+o 返回"@,
        InputMode::Tmux => "c 新标签 | % 右分屏 | \" 下分屏 | , 重命名 | [ 滚动 | n/p 标签 | z 全屏"@,
        InputMode::RenameTab => "输入新标签名 | Enter 确认 | Esc 取消"@,
        InputMode::RenamePane => "输入新窗格名 | Enter 确认 | Esc 取消"@,
        InputMode::Prompt => "确认操作 | y 是 | n 否 | Esc 取消"@,
    }
}

/// A one-line summary of the keys of a mode.
pub fn mode_hint(mode: InputMode) -> (s: &'static str)
    ensures
        s@ == spec_mode_hint(mode),
{
    match mode {
        InputMode::Normal => "Ctrl+p 窗格 | Ctrl+t 标签 | Ctrl+n 调整 | Ctrl+h 移动 | Ctrl+s 滚动 | Ctrl+o 会话 | Alt+n 新窗格 | Alt+f 浮动 | Alt+i/o 移标签 | Ctrl+q 退出",
        InputMode::Locked => "界面已锁定 | Ctrl+g 解锁",
        InputMode::Pane => "d 下分屏 | r 右分屏 | n 自动窗格 | s 堆叠 | x 关闭 | f 全屏 | z 框架 | e 浮动/嵌入 | w 显示浮动 | c 重命名 | p 切焦点 | hjkl/方向 切换",
        InputMode::Tab => "n 新建 | x 关闭 | r 重命名 | s 同步 | 1-9 跳转 | Tab 最近标签 | h/l/←→ 切换 | [/] 拆分 | b 拆出",
        InputMode::Resize => "+/= 放大 | - 缩小 | hjkl/方向 调整 | Ctrl+n 返回",
        InputMode::Move => "n/Tab 下个位置 | p 上个位置 | hjkl/方向 移动 | Ctrl+h 返回",
        InputMode::Search | InputMode::EnterSearch => "s 输入关键词 | Enter 确认 | n 下一个 | p 上一个 | c 大小写 | w 全词 | o 循环 | Esc 返回",
        InputMode::Scroll => "s 搜索 | e 编辑回滚 | j/k/方向 滚动 | Ctrl+u/d 半页 | PageUp/Down 翻页 | Ctrl+c 底部",
        InputMode::Session => "d 分离 | w 会话管理 | p 插件管理 | c 配置 | l 布局 | a 关于 | Ctrl+o 返回",
        InputMode::Tmux => "c 新标签 | % 右分屏 | \" 下分屏 | , 重命名 | [ 滚动 | n/p 标签 | z 全屏",
        InputMode::RenameTab => "输入新标签名 | Enter 确认 | Esc 取消",
        InputMode::RenamePane => "输入新窗格名 | Enter 确认 | Esc 取消",
        InputMode::Prompt => "确认操作 | y 是 | n 否 | Esc 取消",
    }
}

pub open spec fn spec_normal_items_0() -> Seq<HintItem> {
    seq![
        HintItem { key: "p", label: "窗格", priority: 1 },
        HintItem { key: "t", label: "标签", priority: 1 },
        HintItem { key: "n", label: "调整", priority: 1 },
        HintItem { key: "h", label: "移动", priority: 1 },
        HintItem { key: "s", label: "滚动", priority: 2 },
        HintItem { key: "o", label: "会话", priority: 2 },
        HintItem { key: "q", label: "退出", priority: 1 },
    ]
}

pub open spec fn spec_normal_items_1() -> Seq<HintItem> {
    seq![
        HintItem { key: "n", label: "新窗格", priority: 1 },
        HintItem { key: "f", label: "浮动", priority: 2 },
        HintItem { key: "i/o", label: "移标签", priority: 3 },
    ]
}

pub open spec fn spec_normal_groups() -> Seq<HintGroupSpec> {
    seq![
        HintGroupSpec { title: "Ctrl", prefix: Some("Ctrl"), items: spec_normal_items_0() },
        HintGroupSpec { title: "Alt", prefix: Some("Alt"), items: spec_normal_items_1() },
    ]
}

fn normal_groups() -> (r: Vec<HintGroup>)
    ensures
        group_specs(r@) == spec_normal_groups(),
{
    let items0 = vec![
        HintItem { key: "p", label: "窗格", priority: 1 },
        HintItem { key: "t", label: "标签", priority: 1 },
        HintItem { key: "n", label: "调整", priority: 1 },
        HintItem { key: "h", label: "移动", priority: 1 },
        HintItem { key: "s", label: "滚动", priority: 2 },
        HintItem { key: "o", label: "会话", priority: 2 },
        HintItem { key: "q", label: "退出", priority: 1 },
    ];
    assert(items0@ =~= spec_normal_items_0());
    let items1 = vec![
        HintItem { key: "n", label: "新窗格", priority: 1 },
        HintItem { key: "f", label: "浮动", priority: 2 },
        HintItem { key: "i/o", label: "移标签", priority: 3 },
    ];
    assert(items1@ =~= spec_normal_items_1());
    let r = vec![
        HintGroup { title: "Ctrl", prefix: Some("Ctrl"), items: items0 },
        HintGroup { title: "Alt", prefix: Some("Alt"), items: items1 },
    ];
    assert(group_spec(r@[0]) == spec_normal_groups()[0]);
    assert(group_spec(r@[1]) == spec_normal_groups()[1]);
    assert(group_specs(r@) =~= spec_normal_groups());
    r
}

pub open spec fn spec_locked_items_0() -> Seq<HintItem> {
    seq![
        HintItem { key: "Ctrl+g", label: "解锁", priority: 1 },
    ]
}

pub open spec fn spec_locked_groups() -> Seq<HintGroupSpec> {
    seq![
        HintGroupSpec { title: "锁定", prefix: None, items: spec_locked_items_0() },
    ]
}

fn locked_groups() -> (r: Vec<HintGroup>)
    ensures
        group_specs(r@) == spec_locked_groups(),
{
    let items0 = vec![
        HintItem { key: "Ctrl+g", label: "解锁", priority: 1 },
    ];
    assert(items0@ =~= spec_locked_items_0());
    let r = vec![
        HintGroup { title: "锁定", prefix: None, items: items0 },
    ];
    assert(group_spec(r@[0]) == spec_locked_groups()[0]);
    assert(group_specs(r@) =~= spec_locked_groups());
    r
}

pub open spec fn spec_pane_items_0() -> Seq<HintItem> {
    seq![
        HintItem { key: "d", label: "下分屏", priority: 1 },
        HintItem { key: "r", label: "右分屏", priority: 1 },
        HintItem { key: "n", label: "自动窗格", priority: 1 },
        HintItem { key: "s", label: "堆叠", priority: 2 },
        HintItem { key: "x", label: "关闭", priority: 1 },
        HintItem { key: "f", label: "全屏", priority: 1 },
        HintItem { key: "z", label: "框架", priority: 2 },
    ]
}

pub open spec fn spec_pane_items_1() -> Seq<HintItem> {
    seq![
        HintItem { key: "e", label: "浮动/嵌入", priority: 2 },
        HintItem { key: "w", label: "显示浮动", priority: 3 },
        HintItem { key: "c", label: "重命名", priority: 2 },
        HintItem { key: "p", label: "切焦点", priority: 3 },
        HintItem { key: "hjkl/方向", label: "切换", priority: 2 },
    ]
}

pub open spec fn spec_pane_groups() -> Seq<HintGroupSpec> {
    seq![
        HintGroupSpec { title: "窗格", prefix: None, items: spec_pane_items_0() },
        HintGroupSpec { title: "更多", prefix: None, items: spec_pane_items_1() },
    ]
}

fn pane_groups() -> (r: Vec<HintGroup>)
    ensures
        group_specs(r@) == spec_pane_groups(),
{
    let items0 = vec![
        HintItem { key: "d", label: "下分屏", priority: 1 },
        HintItem { key: "r", label: "右分屏", priority: 1 },
        HintItem { key: "n", label: "自动窗格", priority: 1 },
        HintItem { key: "s", label: "堆叠", priority: 2 },
        HintItem { key: "x", label: "关闭", priority: 1 },
        HintItem { key: "f", label: "全屏", priority: 1 },
        HintItem { key: "z", label: "框架", priority: 2 },
    ];
    assert(items0@ =~= spec_pane_items_0());
    let items1 = vec![
        HintItem { key: "e", label: "浮动/嵌入", priority: 2 },
        HintItem { key: "w", label: "显示浮动", priority: 3 },
        HintItem { key: "c", label: "重命名", priority: 2 },
        HintItem { key: "p", label: "切焦点", priority: 3 },
        HintItem { key: "hjkl/方向", label: "切换", priority: 2 },
    ];
    assert(items1@ =~= spec_pane_items_1());
    let r = vec![
        HintGroup { title: "窗格", prefix: None, items: items0 },
        HintGroup { title: "更多", prefix: None, items: items1 },
    ];
    assert(group_spec(r@[0]) == spec_pane_groups()[0]);
    assert(group_spec(r@[1]) == spec_pane_groups()[1]);
    assert(group_specs(r@) =~= spec_pane_groups());
    r
}

pub open spec fn spec_tab_items_0() -> Seq<HintItem> {
    seq![
        HintItem { key: "n", label: "新建", priority: 1 },
        HintItem { key: "x", label: "关闭", priority: 1 },
        HintItem { key: "r", label: "重命名", priority: 1 },
        HintItem { key: "s", label: "同步", priority: 1 },
        HintItem { key: "1-9", label: "跳转", priority: 1 },
        HintItem { key: "Tab", label: "最近标签", priority: 2 },
    ]
}

pub open spec fn spec_tab_items_1() -> Seq<HintItem> {
    seq![
        HintItem { key: "h/l/←→", label: "切换", priority: 2 },
        HintItem { key: "[/]", label: "拆分", priority: 1 },
        HintItem { key: "b", label: "拆出", priority: 2 },
    ]
}

pub open spec fn spec_tab_groups() -> Seq<HintGroupSpec> {
    seq![
        HintGroupSpec { title: "标签", prefix: None, items: spec_tab_items_0() },
        HintGroupSpec { title: "整理", prefix: None, items: spec_tab_items_1() },
    ]
}

fn tab_groups() -> (r: Vec<HintGroup>)
    ensures
        group_specs(r@) == spec_tab_groups(),
{
    let items0 = vec![
        HintItem { key: "n", label: "新建", priority: 1 },
        HintItem { key: "x", label: "关闭", priority: 1 },
        HintItem { key: "r", label: "重命名", priority: 1 },
        HintItem { key: "s", label: "同步", priority: 1 },
        HintItem { key: "1-9", label: "跳转", priority: 1 },
        HintItem { key: "Tab", label: "最近标签", priority: 2 },
    ];
    assert(items0@ =~= spec_tab_items_0());
    let items1 = vec![
        HintItem { key: "h/l/←→", label: "切换", priority: 2 },
        HintItem { key: "[/]", label: "拆分", priority: 1 },
        HintItem { key: "b", label: "拆出", priority: 2 },
    ];
    assert(items1@ =~= spec_tab_items_1());
    let r = vec![
        HintGroup { title: "标签", prefix: None, items: items0 },
        HintGroup { title: "整理", prefix: None, items: items1 },
    ];
    assert(group_spec(r@[0]) == spec_tab_groups()[0]);
    assert(group_spec(r@[1]) == spec_tab_groups()[1]);
    assert(group_specs(r@) =~= spec_tab_groups());
    r
}

pub open spec fn spec_resize_items_0() -> Seq<HintItem> {
    seq![
        HintItem { key: "+/=", label: "放大", priority: 1 },
        HintItem { key: "-", label: "缩小", priority: 1 },
        HintItem { key: "hjkl/方向", label: "调边界", priority: 1 },
        HintItem { key: "Ctrl+n", label: "返回", priority: 2 },
    ]
}

pub open spec fn spec_resize_groups() -> Seq<HintGroupSpec> {
    seq![
        HintGroupSpec { title: "调整", prefix: None, items: spec_resize_items_0() },
    ]
}

fn resize_groups() -> (r: Vec<HintGroup>)
    ensures
        group_specs(r@) == spec_resize_groups(),
{
    let items0 = vec![
        HintItem { key: "+/=", label: "放大", priority: 1 },
        HintItem { key: "-", label: "缩小", priority: 1 },
        HintItem { key: "hjkl/方向", label: "调边界", priority: 1 },
        HintItem { key: "Ctrl+n", label: "返回", priority: 2 },
    ];
    assert(items0@ =~= spec_resize_items_0());
    let r = vec![
        HintGroup { title: "调整", prefix: None, items: items0 },
    ];
    assert(group_spec(r@[0]) == spec_resize_groups()[0]);
    assert(group_specs(r@) =~= spec_resize_groups());
    r
}

pub open spec fn spec_move_items_0() -> Seq<HintItem> {
    seq![
        HintItem { key: "hjkl/方向", label: "移动", priority: 1 },
        HintItem { key: "n/Tab", label: "下个位置", priority: 1 },
        HintItem { key: "p", label: "上个位置", priority: 2 },
        HintItem { key: "Ctrl+h", label: "返回", priority: 2 },
    ]
}

pub open spec fn spec_move_groups() -> Seq<HintGroupSpec> {
    seq![
        HintGroupSpec { title: "移动", prefix: None, items: spec_move_items_0() },
    ]
}

fn move_groups() -> (r: Vec<HintGroup>)
    ensures
        group_specs(r@) == spec_move_groups(),
{
    let items0 = vec![
        HintItem { key: "hjkl/方向", label: "移动", priority: 1 },
        HintItem { key: "n/Tab", label: "下个位置", priority: 1 },
        HintItem { key: "p", label: "上个位置", priority: 2 },
        HintItem { key: "Ctrl+h", label: "返回", priority: 2 },
    ];
    assert(items0@ =~= spec_move_items_0());
    let r = vec![
        HintGroup { title: "移动", prefix: None, items: items0 },
    ];
    assert(group_spec(r@[0]) == spec_move_groups()[0]);
    assert(group_specs(r@) =~= spec_move_groups());
    r
}

pub open spec fn spec_scroll_items_0() -> Seq<HintItem> {
    seq![
        HintItem { key: "j/k/方向", label: "滚动", priority: 1 },
        HintItem { key: "PageUp/Down", label: "翻页", priority: 1 },
        HintItem { key: "Ctrl+b/f", label: "整页", priority: 2 },
        HintItem { key: "u/d", label: "半页", priority: 2 },
    ]
}

pub open spec fn spec_scroll_items_1() -> Seq<HintItem> {
    seq![
        HintItem { key: "s", label: "搜索", priority: 1 },
        HintItem { key: "e", label: "编辑回滚", priority: 2 },
        HintItem { key: "Ctrl+c", label: "到底部", priority: 2 },
    ]
}

pub open spec fn spec_scroll_groups() -> Seq<HintGroupSpec> {
    seq![
        HintGroupSpec { title: "滚动", prefix: None, items: spec_scroll_items_0() },
        HintGroupSpec { title: "操作", prefix: None, items: spec_scroll_items_1() },
    ]
}

fn scroll_groups() -> (r: Vec<HintGroup>)
    ensures
        group_specs(r@) == spec_scroll_groups(),
{
    let items0 = vec![
        HintItem { key: "j/k/方向", label: "滚动", priority: 1 },
        HintItem { key: "PageUp/Down", label: "翻页", priority: 1 },
        HintItem { key: "Ctrl+b/f", label: "整页", priority: 2 },
        HintItem { key: "u/d", label: "半页", priority: 2 },
    ];
    assert(items0@ =~= spec_scroll_items_0());
    let items1 = vec![
        HintItem { key: "s", label: "搜索", priority: 1 },
        HintItem { key: "e", label: "编辑回滚", priority: 2 },
        HintItem { key: "Ctrl+c", label: "到底部", priority: 2 },
    ];
    assert(items1@ =~= spec_scroll_items_1());
    let r = vec![
        HintGroup { title: "滚动", prefix: None, items: items0 },
        HintGroup { title: "操作", prefix: None, items: items1 },
    ];
    assert(group_spec(r@[0]) == spec_scroll_groups()[0]);
    assert(group_spec(r@[1]) == spec_scroll_groups()[1]);
    assert(group_specs(r@) =~= spec_scroll_groups());
    r
}

pub open spec fn spec_search_items_0() -> Seq<HintItem> {
    seq![
        HintItem { key: "s", label: "输入关键词", priority: 1 },
        HintItem { key: "Enter", label: "确认", priority: 1 },
        HintItem { key: "n/p", label: "上下匹配", priority: 1 },
        HintItem { key: "c", label: "大小写", priority: 2 },
        HintItem { key: "w", label: "全词", priority: 2 },
        HintItem { key: "o", label: "循环", priority: 3 },
    ]
}

pub open spec fn spec_search_groups() -> Seq<HintGroupSpec> {
    seq![
        HintGroupSpec { title: "搜索", prefix: None, items: spec_search_items_0() },
    ]
}

fn search_groups() -> (r: Vec<HintGroup>)
    ensures
        group_specs(r@) == spec_search_groups(),
{
    let items0 = vec![
        HintItem { key: "s", label: "输入关键词", priority: 1 },
        HintItem { key: "Enter", label: "确认", priority: 1 },
        HintItem { key: "n/p", label: "上下匹配", priority: 1 },
        HintItem { key: "c", label: "大小写", priority: 2 },
        HintItem { key: "w", label: "全词", priority: 2 },
        HintItem { key: "o", label: "循环", priority: 3 },
    ];
    assert(items0@ =~= spec_search_items_0());
    let r = vec![
        HintGroup { title: "搜索", prefix: None, items: items0 },
    ];
    assert(group_spec(r@[0]) == spec_search_groups()[0]);
    assert(group_specs(r@) =~= spec_search_groups());
    r
}

pub open spec fn spec_session_items_0() -> Seq<HintItem> {
    seq![
        HintItem { key: "d", label: "分离", priority: 1 },
        HintItem { key: "w", label: "会话管理", priority: 1 },
        HintItem { key: "p", label: "插件管理", priority: 1 },
        HintItem { key: "c", label: "配置", priority: 2 },
        HintItem { key: "l", label: "布局", priority: 2 },
        HintItem { key: "a", label: "关于", priority: 3 },
    ]
}

pub open spec fn spec_session_groups() -> Seq<HintGroupSpec> {
    seq![
        HintGroupSpec { title: "会话", prefix: None, items: spec_session_items_0() },
    ]
}

fn session_groups() -> (r: Vec<HintGroup>)
    ensures
        group_specs(r@) == spec_session_groups(),
{
    let items0 = vec![
        HintItem { key: "d", label: "分离", priority: 1 },
        HintItem { key: "w", label: "会话管理", priority: 1 },
        HintItem { key: "p", label: "插件管理", priority: 1 },
        HintItem { key: "c", label: "配置", priority: 2 },
        HintItem { key: "l", label: "布局", priority: 2 },
        HintItem { key: "a", label: "关于", priority: 3 },
    ];
    assert(items0@ =~= spec_session_items_0());
    let r = vec![
        HintGroup { title: "会话", prefix: None, items: items0 },
    ];
    assert(group_spec(r@[0]) == spec_session_groups()[0]);
    assert(group_specs(r@) =~= spec_session_groups());
    r
}

pub open spec fn spec_tmux_items_0() -> Seq<HintItem> {
    seq![
        HintItem { key: "c", label: "新标签", priority: 1 },
        HintItem { key: "%", label: "右分屏", priority: 1 },
        HintItem { key: "\"", label: "下分屏", priority: 1 },
        HintItem { key: ",", label: "重命名", priority: 2 },
        HintItem { key: "[", label: "滚动", priority: 2 },
        HintItem { key: "n/p", label: "标签", priority: 2 },
        HintItem { key: "z", label: "全屏", priority: 2 },
    ]
}

pub open spec fn spec_tmux_groups() -> Seq<HintGroupSpec> {
    seq![
        HintGroupSpec { title: "Tmux", prefix: None, items: spec_tmux_items_0() },
    ]
}

fn tmux_groups() -> (r: Vec<HintGroup>)
    ensures
        group_specs(r@) == spec_tmux_groups(),
{
    let items0 = vec![
        HintItem { key: "c", label: "新标签", priority: 1 },
        HintItem { key: "%", label: "右分屏", priority: 1 },
        HintItem { key: "\"", label: "下分屏", priority: 1 },
        HintItem { key: ",", label: "重命名", priority: 2 },
        HintItem { key: "[", label: "滚动", priority: 2 },
        HintItem { key: "n/p", label: "标签", priority: 2 },
        HintItem { key: "z", label: "全屏", priority: 2 },
    ];
    assert(items0@ =~= spec_tmux_items_0());
    let r = vec![
        HintGroup { title: "Tmux", prefix: None, items: items0 },
    ];
    assert(group_spec(r@[0]) == spec_tmux_groups()[0]);
    assert(group_specs(r@) =~= spec_tmux_groups());
    r
}

pub open spec fn spec_rename_tab_items_0() -> Seq<HintItem> {
    seq![
        HintItem { key: "Enter", label: "确认", priority: 1 },
        HintItem { key: "Esc", label: "取消", priority: 1 },
        HintItem { key: "Ctrl+c", label: "返回普通", priority: 2 },
    ]
}

pub open spec fn spec_rename_tab_groups() -> Seq<HintGroupSpec> {
    seq![
        HintGroupSpec { title: "重命名标签", prefix: None, items: spec_rename_tab_items_0() },
    ]
}

fn rename_tab_groups() -> (r: Vec<HintGroup>)
    ensures
        group_specs(r@) == spec_rename_tab_groups(),
{
    let items0 = vec![
        HintItem { key: "Enter", label: "确认", priority: 1 },
        HintItem { key: "Esc", label: "取消", priority: 1 },
        HintItem { key: "Ctrl+c", label: "返回普通", priority: 2 },
    ];
    assert(items0@ =~= spec_rename_tab_items_0());
    let r = vec![
        HintGroup { title: "重命名标签", prefix: None, items: items0 },
    ];
    assert(group_spec(r@[0]) == spec_rename_tab_groups()[0]);
    assert(group_specs(r@) =~= spec_rename_tab_groups());
    r
}

pub open spec fn spec_rename_pane_items_0() -> Seq<HintItem> {
    seq![
        HintItem { key: "Enter", label: "确认", priority: 1 },
        HintItem { key: "Esc", label: "取消", priority: 1 },
        HintItem { key: "Ctrl+c", label: "返回普通", priority: 2 },
    ]
}

pub open spec fn spec_rename_pane_groups() -> Seq<HintGroupSpec> {
    seq![
        HintGroupSpec { title: "重命名窗格", prefix: None, items: spec_rename_pane_items_0() },
    ]
}

fn rename_pane_groups() -> (r: Vec<HintGroup>)
    ensures
        group_specs(r@) == spec_rename_pane_groups(),
{
    let items0 = vec![
        HintItem { key: "Enter", label: "确认", priority: 1 },
        HintItem { key: "Esc", label: "取消", priority: 1 },
        HintItem { key: "Ctrl+c", label: "返回普通", priority: 2 },
    ];
    assert(items0@ =~= spec_rename_pane_items_0());
    let r = vec![
        HintGroup { title: "重命名窗格", prefix: None, items: items0 },
    ];
    assert(group_spec(r@[0]) == spec_rename_pane_groups()[0]);
    assert(group_specs(r@) =~= spec_rename_pane_groups());
    r
}

pub open spec fn spec_prompt_items_0() -> Seq<HintItem> {
    seq![
        HintItem { key: "y", label: "同意", priority: 1 },
        HintItem { key: "n", label: "拒绝", priority: 1 },
        HintItem { key: "Esc", label: "取消", priority: 2 },
    ]
}

pub open spec fn spec_prompt_groups() -> Seq<HintGroupSpec> {
    seq![
        HintGroupSpec { title: "确认", prefix: None, items: spec_prompt_items_0() },
    ]
}

fn prompt_groups() -> (r: Vec<HintGroup>)
    ensures
        group_specs(r@) == spec_prompt_groups(),
{
    let items0 = vec![
        HintItem { key: "y", label: "同意", priority: 1 },
        HintItem { key: "n", label: "拒绝", priority: 1 },
        HintItem { key: "Esc", label: "取消", priority: 2 },
    ];
    assert(items0@ =~= spec_prompt_items_0());
    let r = vec![
        HintGroup { title: "确认", prefix: None, items: items0 },
    ];
    assert(group_spec(r@[0]) == spec_prompt_groups()[0]);
    assert(group_specs(r@) =~= spec_prompt_groups());
    r
}

pub open spec fn spec_hint_groups(mode: InputMode) -> Seq<HintGroupSpec> {
    match mode {
        InputMode::Normal => spec_normal_groups(),
        InputMode::Locked => spec_locked_groups(),
        InputMode::Pane => spec_pane_groups(),
        InputMode::Tab => spec_tab_groups(),
        InputMode::Resize => spec_resize_groups(),
        InputMode::Move => spec_move_groups(),
        InputMode::Scroll => spec_scroll_groups(),
        InputMode::EnterSearch | InputMode::Search => spec_search_groups(),
        InputMode::Session => spec_session_groups(),
        InputMode::Tmux => spec_tmux_groups(),
        InputMode::RenameTab => spec_rename_tab_groups(),
        InputMode::RenamePane => spec_rename_pane_groups(),
        InputMode::Prompt => spec_prompt_groups(),
    }
}

/// The key hint groups that the status bar shows for a mode.
pub fn hint_groups(mode: InputMode) -> (r: Vec<HintGroup>)
    ensures
        group_specs(r@) == spec_hint_groups(mode),
{
    match mode {
        InputMode::Normal => normal_groups(),
        InputMode::Locked => locked_groups(),
        InputMode::Pane => pane_groups(),
        InputMode::Tab => tab_groups(),
        InputMode::Resize => resize_groups(),
        InputMode::Move => move_groups(),
        InputMode::Scroll => scroll_groups(),
        InputMode::EnterSearch | InputMode::Search => search_groups(),
        InputMode::Session => session_groups(),
        InputMode::Tmux => tmux_groups(),
        InputMode::RenameTab => rename_tab_groups(),
        InputMode::RenamePane => rename_pane_groups(),
        InputMode::Prompt => prompt_groups(),
    }
}

pub open spec fn spec_copy_hint(destination: CopyDestination) -> Seq<char> {
    match destination {
        CopyDestination::Command => "已复制到命令"@,
        CopyDestination::Primary => "已复制到主选择区"@,
        CopyDestination::System => "已复制到系统剪贴板"@,
    }
}

/// The notice shown after a copy to `destination`.
pub fn copy_hint(destination: CopyDestination) -> (s: &'static str)
    ensures
        s@ == spec_copy_hint(destination),
{
    match destination {
        CopyDestination::Command => "已复制到命令",
        CopyDestination::Primary => "已复制到主选择区",
        CopyDestination::System => "已复制到系统剪贴板",
    }
}

pub open spec fn spec_clipboard_error() -> Seq<char> {
    "系统剪贴板不可用"@
}

/// The notice shown when the system clipboard fails.
pub fn clipboard_error() -> (s: &'static str)
    ensures
        s@ == spec_clipboard_error(),
{
    "系统剪贴板不可用"
}

/// Hint-table law: each mode shows its own table. The first group of every mode but
/// `普通` (grouped by modifier key), `提示` (whose table is titled `确认`) and `输入搜索`
/// (which shows the search table) is titled with the mode's own name; `输入搜索` shows
/// exactly what `搜索` shows.
pub proof fn law_hint_tables_follow_modes(mode: InputMode)
    ensures
        spec_hint_groups(mode).len() > 0,
        mode != InputMode::Normal && mode != InputMode::Prompt && mode != InputMode::EnterSearch
            ==> spec_hint_groups(mode)[0].title@ == spec_mode_name(mode),
        mode == InputMode::Prompt ==> spec_hint_groups(mode)[0].title@ == "确认"@,
        spec_hint_groups(InputMode::EnterSearch) == spec_hint_groups(InputMode::Search),
{
}

/// The title of the first hint group of a mode.
pub open spec fn first_title(mode: InputMode) -> Seq<char> {
    spec_hint_groups(mode)[0].title@
}

/// Hint-table law: no two modes share a table, except `搜索` and `输入搜索`: the titles
/// of their first groups differ.
pub proof fn law_hint_tables_distinct(a: InputMode, b: InputMode)
    requires
        a != b,
        !((a == InputMode::Search || a == InputMode::EnterSearch) && (b == InputMode::Search || b
            == InputMode::EnterSearch)),
    ensures
        first_title(a) != first_title(b),
        spec_hint_groups(a) != spec_hint_groups(b),
{
    reveal_strlit("Ctrl");
    reveal_strlit("锁定");
    reveal_strlit("窗格");
    reveal_strlit("标签");
    reveal_strlit("调整");
    reveal_strlit("移动");
    reveal_strlit("滚动");
    reveal_strlit("搜索");
    reveal_strlit("会话");
    reveal_strlit("Tmux");
    reveal_strlit("重命名标签");
    reveal_strlit("重命名窗格");
    reveal_strlit("确认");
    assert(first_title(a)[0] != first_title(b)[0] || first_title(a).len() != first_title(b).len()
        || first_title(a)[1] != first_title(b)[1] || first_title(a)[3] != first_title(b)[3]);
}

} // verus!
