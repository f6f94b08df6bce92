use typeset::composed::{
    equation_only_tac_line_assignment, line_has_strict_equation_tac_control, line_has_tac_control,
    line_has_tac_equation_control, line_has_visible_text_or_tac_equation,
    line_is_equation_tac_text_run_only, line_is_leading_empty_equation_tac_guide,
    line_leading_tac_equation_count, tac_control_indices_for_line, ComposedLine,
    ComposedParagraph, ComposedRun, LineQueryFacts,
};
use typeset::model::{CommonObjAttr, Control, Equation, Paragraph, Picture};

fn tac_equation() -> Control {
    Control::Equation(Box::new(Equation {
        common: CommonObjAttr {
            treat_as_char: true,
            ..Default::default()
        },
    }))
}

fn tac_picture() -> Control {
    let mut pic = Picture::default();
    pic.common.treat_as_char = true;
    Control::Picture(Box::new(pic))
}

fn empty_line(char_start: usize) -> ComposedLine {
    ComposedLine {
        runs: Vec::new(),
        char_start,
    }
}

fn text_line(char_start: usize, runs: &[&str]) -> ComposedLine {
    ComposedLine {
        runs: runs
            .iter()
            .map(|r| ComposedRun {
                text: r.chars().collect(),
            })
            .collect(),
        char_start,
    }
}

fn facts(char_end: Vec<usize>, strict: Vec<bool>) -> LineQueryFacts {
    LineQueryFacts {
        line_char_end: char_end,
        line_has_strict_tac: strict,
        stored_assignment: None,
    }
}

#[test]
fn equation_group_keeps_guide_lines_when_lines_match_the_count() {
    let para = Paragraph {
        controls: vec![tac_equation(), tac_equation()],
        ..Default::default()
    };
    let comp = ComposedParagraph {
        lines: vec![empty_line(0), empty_line(0), empty_line(0)],
        tac_controls: vec![(0, 1000, 0), (0, 1000, 1)],
    };
    let f = facts(vec![1, 1, 1], vec![false, false, false]);
    assert!(line_is_leading_empty_equation_tac_guide(&para, &comp, &f, 0));
    assert!(line_is_leading_empty_equation_tac_guide(&para, &comp, &f, 1));
    assert!(!line_is_leading_empty_equation_tac_guide(&para, &comp, &f, 2));
    assert_eq!(equation_only_tac_line_assignment(&para, &comp, &f), Some(vec![0, 1]));
    assert_eq!(tac_control_indices_for_line(&para, &comp, &f, 0), vec![0]);
    assert_eq!(tac_control_indices_for_line(&para, &comp, &f, 1), vec![1]);
    assert!(tac_control_indices_for_line(&para, &comp, &f, 2).is_empty());
    assert!(tac_control_indices_for_line(&para, &comp, &f, 9).is_empty());
}

#[test]
fn single_equation_skips_leading_guide_lines() {
    let para = Paragraph {
        controls: vec![tac_equation()],
        ..Default::default()
    };
    let comp = ComposedParagraph {
        lines: vec![empty_line(0), empty_line(0), empty_line(0)],
        tac_controls: vec![(0, 1000, 0)],
    };
    let f = facts(vec![1, 1, 1], vec![false, false, false]);
    assert_eq!(equation_only_tac_line_assignment(&para, &comp, &f), Some(vec![2]));
    assert!(line_has_tac_equation_control(&para, &comp, &f, 2));
    assert!(!line_has_tac_equation_control(&para, &comp, &f, 0));
    assert_eq!(line_leading_tac_equation_count(&para, &comp, &f, 2), 1);
    assert_eq!(line_leading_tac_equation_count(&para, &comp, &f, 0), 0);
    assert!(line_is_equation_tac_text_run_only(&para, &comp, &f, 2, false));
    assert!(!line_is_equation_tac_text_run_only(&para, &comp, &f, 2, true));

    let strict_guide = facts(vec![1, 1, 1], vec![true, false, false]);
    assert!(!line_is_leading_empty_equation_tac_guide(&para, &comp, &strict_guide, 0));
    assert_eq!(
        equation_only_tac_line_assignment(&para, &comp, &strict_guide),
        Some(vec![0])
    );
}

#[test]
fn equation_only_assignment_needs_degenerate_empty_lines() {
    let para = Paragraph {
        controls: vec![tac_equation()],
        ..Default::default()
    };
    let increasing = ComposedParagraph {
        lines: vec![empty_line(0), empty_line(4)],
        tac_controls: vec![(0, 1000, 0)],
    };
    let f = facts(vec![4, 8], vec![false, false]);
    assert_eq!(equation_only_tac_line_assignment(&para, &increasing, &f), None);
    let one_line = ComposedParagraph {
        lines: vec![empty_line(0)],
        tac_controls: vec![(0, 1000, 0)],
    };
    assert_eq!(
        equation_only_tac_line_assignment(&para, &one_line, &facts(vec![1], vec![false])),
        None
    );
    let with_text = ComposedParagraph {
        lines: vec![text_line(0, &["x"]), empty_line(0)],
        tac_controls: vec![(0, 1000, 0)],
    };
    assert_eq!(equation_only_tac_line_assignment(&para, &with_text, &f), None);
}

#[test]
fn empty_lines_take_controls_up_to_the_next_line() {
    let para = Paragraph {
        controls: vec![tac_equation(), tac_picture(), tac_equation()],
        ..Default::default()
    };
    let comp = ComposedParagraph {
        lines: vec![empty_line(0), empty_line(4)],
        tac_controls: vec![(0, 10, 0), (2, 10, 1), (4, 10, 2)],
    };
    let f = facts(vec![4, 8], vec![false, false]);
    assert_eq!(tac_control_indices_for_line(&para, &comp, &f, 0), vec![0, 1]);
    assert_eq!(tac_control_indices_for_line(&para, &comp, &f, 1), vec![2]);
    assert_eq!(line_leading_tac_equation_count(&para, &comp, &f, 0), 1);
    assert!(!line_is_equation_tac_text_run_only(&para, &comp, &f, 0, false));
    assert!(line_is_equation_tac_text_run_only(&para, &comp, &f, 1, false));
    assert!(line_has_strict_equation_tac_control(&para, &comp, &f, 0));
    assert!(line_has_tac_control(&para, &comp, &f, 0));
}

#[test]
fn runs_hold_their_controls_and_the_last_run_its_end() {
    let para = Paragraph {
        controls: vec![tac_picture(), tac_equation()],
        ..Default::default()
    };
    let comp = ComposedParagraph {
        lines: vec![text_line(0, &["a", "b\u{FFFC}"]), text_line(3, &["cd"])],
        tac_controls: vec![(2, 10, 0), (3, 10, 1), (5, 10, 1)],
    };
    let f = facts(vec![3, 5], vec![false, false]);
    assert_eq!(tac_control_indices_for_line(&para, &comp, &f, 0), vec![0]);
    assert_eq!(tac_control_indices_for_line(&para, &comp, &f, 1), vec![1, 1]);
    assert!(!line_has_tac_equation_control(&para, &comp, &f, 0));
    assert!(line_has_tac_equation_control(&para, &comp, &f, 1));
    assert!(line_has_visible_text_or_tac_equation(&para, &comp, &f, 0, true));
    assert!(!line_has_visible_text_or_tac_equation(&para, &comp, &f, 0, false));
    assert!(!line_has_tac_control(&para, &comp, &f, 5));
}

#[test]
fn stored_assignment_decides_when_present() {
    let para = Paragraph::default();
    let comp = ComposedParagraph {
        lines: vec![empty_line(0), empty_line(0)],
        tac_controls: vec![(0, 10, 5), (0, 10, 6), (0, 10, 7)],
    };
    let f = LineQueryFacts {
        line_char_end: vec![0, 0],
        line_has_strict_tac: vec![false, false],
        stored_assignment: Some(vec![(5, 0), (6, 1), (7, 0)]),
    };
    assert_eq!(tac_control_indices_for_line(&para, &comp, &f, 0), vec![5, 7]);
    assert_eq!(tac_control_indices_for_line(&para, &comp, &f, 1), vec![6]);
    let no_tacs = ComposedParagraph {
        lines: vec![empty_line(0)],
        tac_controls: Vec::new(),
    };
    let g = LineQueryFacts {
        line_char_end: vec![0],
        line_has_strict_tac: vec![false],
        stored_assignment: Some(vec![(5, 0)]),
    };
    assert!(tac_control_indices_for_line(&para, &no_tacs, &g, 0).is_empty());
}
