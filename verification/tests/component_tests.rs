use appcui::builder::Builder;
use appcui::chartbar;
use appcui::event_result::ProcessEventResult;
use appcui::graphics::{CharAttribute, CharFlags, Color, Point, Rect, Size, SpecialChar};
use appcui::system::{ErrorKind, Theme, Themes};
use appcui::terminals::{build_default_terminal, TerminalType};
use appcui::toolbar_checkbox::{Caption, CheckBox, ExtractHotKeyMethod};
use appcui::tooltip::ToolTip;
use appcui::viewer_scroll::{ScrollCommand, ScrollState};

#[test]
fn char_attribute_constructors() {
    let a = CharAttribute::new(Color::Red, Color::Blue, CharFlags::bold());
    assert_eq!(a.foreground, Color::Red);
    assert_eq!(a.background, Color::Blue);
    assert_eq!(a.flags, CharFlags::bold());
    let a = CharAttribute::with_color(Color::Yellow, Color::Black);
    assert_eq!(a.flags, CharFlags::none());
    let a = CharAttribute::with_fore_color(Color::Green);
    assert_eq!(a.background, Color::Transparent);
    let a = CharAttribute::with_back_color(Color::Teal);
    assert_eq!(a.foreground, Color::Transparent);
    assert_eq!(a.background, Color::Teal);
    let a = CharAttribute::default();
    assert_eq!(a.foreground, Color::White);
    assert_eq!(a.background, Color::Black);
}

#[test]
fn char_flags_combine() {
    let f = CharFlags::bold().union(CharFlags::underline());
    assert_eq!(f.bits, 5);
    assert!(f.contains(CharFlags::bold()));
    assert!(!f.contains(CharFlags::italic()));
    let cf = chartbar::Flags::scroll_bars().union(chartbar::Flags::auto_scroll());
    assert_eq!(cf.bits, 9);
    assert!(cf.contains(chartbar::Flags::scroll_bars()));
    assert!(!cf.contains(chartbar::Flags::search_bar()));
    assert_eq!(chartbar::Type::Line, chartbar::Type::Line);
    assert_ne!(chartbar::Fit::FitToHeight, chartbar::Fit::NoFit);
}

#[test]
fn builder_collects_choices() {
    let app = Builder::new()
        .size(Size::new(80, 25))
        .title("Demo")
        .menu_bar()
        .command_bar()
        .single_window()
        .theme(Theme::new(Themes::Default))
        .build()
        .unwrap();
    assert_eq!(app.terminal, TerminalType::Termios);
    assert_eq!(app.size, Some(Size::new(80, 25)));
    assert_eq!(app.title.as_deref(), Some("Demo"));
    assert!(app.has_menu_bar);
    assert!(app.has_command_bar);
    assert!(app.single_window);
    assert!(!app.has_custom_desktop);
}

#[test]
fn builder_rejects_zero_sizes() {
    let err = Builder::new().size(Size::new(0, 5)).build().unwrap_err();
    assert_eq!(err.kind, ErrorKind::InvalidParameter);
    assert_eq!(
        err.description,
        "Invalid size for a terminal (0x5). Both width and height must be bigger than 0 !"
    );
    let err = Builder::new().size(Size::new(120, 0)).build().unwrap_err();
    assert_eq!(
        err.description,
        "Invalid size for a terminal (120x0). Both width and height must be bigger than 0 !"
    );
    assert_eq!(build_default_terminal(), TerminalType::Termios);
}

#[test]
fn process_event_result_bits() {
    assert!(ProcessEventResult::repaint().should_repaint());
    assert!(!ProcessEventResult::repaint().should_update());
    assert!(ProcessEventResult::update().should_repaint());
    assert!(ProcessEventResult::update().should_update());
    assert!(!ProcessEventResult::processed().should_repaint());
    assert!(!ProcessEventResult::pass_to_control().should_repaint());
    assert!(ProcessEventResult::pass_to_control_and_repaint().should_repaint());
    let combined = ProcessEventResult::pass_to_control().combine(ProcessEventResult::update());
    assert!(combined.should_update());
}

#[test]
fn checkbox_extracts_its_hotkey() {
    let mut cb = CheckBox::new("&Start", true);
    assert_eq!(cb.get_content(), "Start");
    assert!(cb.is_checked());
    assert_eq!(cb.base.width, 7);
    assert!(cb.base.needs_recompute);
    cb.set_checked(false);
    assert!(!cb.is_checked());
    cb.reverse_check();
    assert!(cb.is_checked());
    cb.set_content("a&1b");
    assert_eq!(cb.get_content(), "a1b");
    assert_eq!(cb.base.width, 5);
}

#[test]
fn caption_hotkey_rules() {
    let c = Caption::new("&Options", ExtractHotKeyMethod::AltPlusKey);
    assert_eq!(c.text(), "Options");
    assert!(c.has_hotkey());
    assert_eq!(c.hotkey_pos(), Some(0));
    // an ampersand before a non-key character marks nothing
    let c = Caption::new("a && b", ExtractHotKeyMethod::AltPlusKey);
    assert_eq!(c.text(), "a && b");
    assert!(!c.has_hotkey());
    // without extraction the text is kept whole
    let c = Caption::new("&Options", ExtractHotKeyMethod::NoHotKey);
    assert_eq!(c.text(), "&Options");
    assert!(!c.has_hotkey());
    assert_eq!(c.chars_count(), 8);
}

#[test]
fn tooltip_prefers_the_space_above() {
    let mut tip = ToolTip::new();
    assert!(!tip.is_visible());
    let placed_above = tip.show("Hello", &Rect::new(5, 5, 4, 1), Size::new(40, 12));
    assert!(placed_above);
    assert!(tip.is_visible());
    assert_eq!(tip.arrow_char, SpecialChar::ArrowDown);
    assert_eq!(tip.arrow_pos, Point::new(7, 4));
    assert_eq!(tip.text_pos, Point::new(4, 3));
    assert_eq!(tip.size, Size::new(7, 1));
    assert_eq!(tip.text, "Hello");
    tip.dismiss();
    assert!(!tip.is_visible());
}

#[test]
fn tooltip_falls_back_below() {
    let mut tip = ToolTip::new();
    let placed_above = tip.show("Hello", &Rect::new(5, 0, 4, 1), Size::new(40, 12));
    assert!(!placed_above);
    assert!(tip.is_visible());
    assert_eq!(tip.arrow_char, SpecialChar::ArrowUp);
    assert_eq!(tip.arrow_pos, Point::new(7, 2));
    assert_eq!(tip.text_pos, Point::new(4, 3));
}

#[test]
fn tooltip_gives_up_without_room() {
    let mut tip = ToolTip::new();
    let placed = tip.show("Hello", &Rect::new(5, 0, 4, 1), Size::new(40, 2));
    assert!(!placed);
    assert!(!tip.is_visible());
}

#[test]
fn tooltip_wraps_long_lines() {
    let mut tip = ToolTip::new();
    // 25 characters on a screen 20 wide wrap at 10: three lines, best 10
    tip.show(
        "aaaaaaaaaabbbbbbbbbbccccc",
        &Rect::new(5, 10, 4, 1),
        Size::new(20, 30),
    );
    assert!(tip.is_visible());
    assert_eq!(tip.size, Size::new(12, 3));
    // explicit line breaks count too
    let mut tip = ToolTip::new();
    tip.show("ab\ncdef\ng", &Rect::new(5, 10, 4, 1), Size::new(40, 30));
    assert_eq!(tip.size, Size::new(7, 3));
}

#[test]
fn scroll_offsets_stay_inside_the_content() {
    let view = Size::new(10, 5);
    let content = Size::new(100, 50);
    let mut st = ScrollState::new();
    st.move_scroll_to(-200, -200, view, content);
    assert_eq!(st, ScrollState { x: -90, y: -45 });
    st.on_command(ScrollCommand::StepLeft, view, content);
    assert_eq!(st.x, -89);
    st.on_command(ScrollCommand::Home, view, content);
    assert_eq!(st, ScrollState { x: 0, y: 0 });
    st.on_command(ScrollCommand::End, view, content);
    assert_eq!(st, ScrollState { x: -90, y: -45 });
    st.on_command(ScrollCommand::PageRight, view, content);
    assert_eq!(st.x, -90);
    st.on_command(ScrollCommand::PageLeft, view, content);
    assert_eq!(st.x, -80);
    // content that fits the view never scrolls
    let mut st = ScrollState::new();
    st.move_scroll_to(-5, -5, Size::new(10, 5), Size::new(8, 4));
    assert_eq!(st, ScrollState { x: 0, y: 0 });
}

#[test]
fn scroll_follows_a_drag() {
    let view = Size::new(10, 5);
    let content = Size::new(100, 50);
    let mut st = ScrollState::new();
    st.on_drag(Point::new(8, 4), Point::new(3, 1), view, content);
    assert_eq!(st, ScrollState { x: -5, y: -3 });
}
