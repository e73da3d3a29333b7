use liminal::TerminalConfig;
use liminal::config::ShellConfig;
use liminal::ui::Modifiers;
use liminal::ui::UiRenderer;
use liminal::ui::register_click;

#[test]
fn no_modifier_is_held_by_default() {
    let m = Modifiers::default();
    assert!(!m.ctrl && !m.alt && !m.shift && !m.cmd);
}

#[test]
fn a_quick_second_click_is_a_double_click() {
    let (count, double) = register_click(0, 1000);
    assert_eq!((count, double), (1, false));
    let (count, double) = register_click(count, 150);
    assert_eq!((count, double), (0, true));
}

#[test]
fn a_slow_second_click_restarts_the_count() {
    let (count, double) = register_click(1, 300);
    assert_eq!((count, double), (1, false));
    let (count, double) = register_click(count, 299);
    assert_eq!((count, double), (0, true));
}

#[test]
fn frames_begin_and_end_without_error() {
    let mut r = UiRenderer::new();
    assert!(r.begin_frame().is_ok());
    assert!(r.end_frame().is_ok());
}

#[test]
fn the_default_terminal_configuration_is_the_standard_grid() {
    let c = TerminalConfig::default();
    assert_eq!(c.rows, 24);
    assert_eq!(c.cols, 80);
    assert_eq!(c.scrollback_limit, 10000);
}

#[test]
fn the_default_shell_configuration_detects_everything() {
    let c = ShellConfig::default();
    assert!(c.shell_command.is_none());
    assert!(c.working_directory.is_none());
    assert!(c.environment_variables.is_empty());
}
