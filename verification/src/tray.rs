use vstd::prelude::*;

use crate::text::str_eq;

verus! {

/// The labels of the tray menu and its "still running" notice, in one
/// interface language.
#[derive(Debug, Clone, Copy)]
pub struct TrayText {
    pub open_window: &'static str,
    pub reset_window: &'static str,
    pub quit: &'static str,
    pub running: &'static str,
}

/// The tray labels for an interface language; anything but the three
/// translated tags gets the English set.
pub fn tray_texts(language: &str) -> (r: TrayText)
    ensures
        language@ == "ko"@ ==> r.open_window@ == "창 열기"@ && r.reset_window@
            == "창 위치/크기 초기화"@ && r.quit@ == "종료"@ && r.running@
            == "Langcon이 트레이에서 실행 중입니다."@,
        language@ == "ja"@ ==> r.open_window@ == "ウィンドウを開く"@ && r.reset_window@
            == "ウィンドウ位置/サイズをリセット"@ && r.quit@ == "終了"@ && r.running@
            == "Langcon がトレイで実行中です。"@,
        language@ == "zh"@ ==> r.open_window@ == "打开窗口"@ && r.reset_window@
            == "重置窗口位置/大小"@ && r.quit@ == "退出"@ && r.running@
            == "Langcon 正在托盘中运行。"@,
        language@ != "ko"@ && language@ != "ja"@ && language@ != "zh"@ ==> r.open_window@
            == "Open window"@ && r.reset_window@ == "Reset window position/size"@ && r.quit@
            == "Quit"@ && r.running@ == "Langcon is running in the tray."@,
{
    proof {
        reveal_strlit("ko");
        reveal_strlit("ja");
        reveal_strlit("zh");
        assert("ko"@ != "ja"@) by {
            assert("ko"@[0] == 'k');
            assert("ja"@[0] == 'j');
        }
        assert("ko"@ != "zh"@) by {
            assert("ko"@[0] == 'k');
            assert("zh"@[0] == 'z');
        }
        assert("ja"@ != "zh"@) by {
            assert("ja"@[0] == 'j');
            assert("zh"@[0] == 'z');
        }
    }
    if str_eq(language, "ko") {
        TrayText {
            open_window: "창 열기",
            reset_window: "창 위치/크기 초기화",
            quit: "종료",
            running: "Langcon이 트레이에서 실행 중입니다.",
        }
    } else if str_eq(language, "ja") {
        TrayText {
            open_window: "ウィンドウを開く",
            reset_window: "ウィンドウ位置/サイズをリセット",
            quit: "終了",
            running: "Langcon がトレイで実行中です。",
        }
    } else if str_eq(language, "zh") {
        TrayText {
            open_window: "打开窗口",
            reset_window: "重置窗口位置/大小",
            quit: "退出",
            running: "Langcon 正在托盘中运行。",
        }
    } else {
        TrayText {
            open_window: "Open window",
            reset_window: "Reset window position/size",
            quit: "Quit",
            running: "Langcon is running in the tray.",
        }
    }
}

} // verus!
