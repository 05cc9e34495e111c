//! The texts of the user interface, one TOML table for each language.

use vstd::prelude::*;

verus! {

/// The English texts.
pub const EN: &'static str = "app_name = \"Ropy\"\n\
search_placeholder = \"Use / to search ... \"\n\
clear_all = \"Clear All\"\n\
pin = \"Pin window\"\n\
unpin = \"Unpin window\"\n\
tray_show = \"Show\"\n\
tray_quit = \"Quit\"\n\
settings_title = \"Settings\"\n\
settings_back = \"Back\"\n\
settings_save = \"Save\"\n\
settings_cancel = \"Cancel\"\n\
settings_hotkey = \"Hotkey\"\n\
settings_activation_key = \"Activation key\"\n\
settings_hotkey_hint = \"For example: control+shift+d\"\n\
settings_hotkey_invalid = \"Invalid hotkey, the default is used\"\n\
settings_storage = \"Storage\"\n\
settings_max_history = \"Maximum history records\"\n\
settings_theme = \"Theme\"\n\
settings_theme_light = \"Light\"\n\
settings_theme_dark = \"Dark\"\n\
settings_theme_system = \"System\"\n\
settings_language = \"Language\"\n\
settings_system = \"System\"\n\
settings_autostart = \"Launch at login\"\n\
settings_autostart_on = \"On\"\n\
settings_autostart_off = \"Off\"\n\
about_title = \"About\"\n\
about_back = \"Back\"\n\
about_version = \"Version\"\n\
about_description = \"A clipboard manager that remembers what you copied\"\n\
about_github = \"GitHub\"\n";

/// The texts in simplified Chinese.
pub const ZH_CN: &'static str = "app_name = \"Ropy\"\n\
search_placeholder = \"按 / 搜索 ... \"\n\
clear_all = \"清空全部\"\n\
pin = \"置顶窗口\"\n\
unpin = \"取消置顶\"\n\
tray_show = \"显示\"\n\
tray_quit = \"退出\"\n\
settings_title = \"设置\"\n\
settings_back = \"返回\"\n\
settings_save = \"保存\"\n\
settings_cancel = \"取消\"\n\
settings_hotkey = \"快捷键\"\n\
settings_activation_key = \"激活键\"\n\
settings_hotkey_hint = \"例如：control+shift+d\"\n\
settings_hotkey_invalid = \"快捷键无效，已使用默认值\"\n\
settings_storage = \"存储\"\n\
settings_max_history = \"最大历史记录数\"\n\
settings_theme = \"主题\"\n\
settings_theme_light = \"浅色\"\n\
settings_theme_dark = \"深色\"\n\
settings_theme_system = \"跟随系统\"\n\
settings_language = \"语言\"\n\
settings_system = \"系统\"\n\
settings_autostart = \"开机自启\"\n\
settings_autostart_on = \"开\"\n\
settings_autostart_off = \"关\"\n\
about_title = \"关于\"\n\
about_back = \"返回\"\n\
about_version = \"版本\"\n\
about_description = \"记住你复制过的内容的剪贴板管理器\"\n\
about_github = \"GitHub\"\n";

} // verus!
