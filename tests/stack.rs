use nom::character::complete::{char as one_char, satisfy};
use nom::error::{VerboseError, VerboseErrorKind};
use nom::error::ErrorKind;
use nom::IResult;

use nom_preserve::error::{
    blame, fold_stack, preserve, promote_last, wrap, ErrorStack, Merge, PreservedError,
    PreservedErrorInner,
};
use nom_preserve::sequence::{delimited, finish_sequence, into_raw_errors, terminated};

type VErr = VerboseError<&'static str>;
type Stack = ErrorStack<&'static str, VErr>;

fn named(at: &'static str, what: &'static str) -> VErr {
    VerboseError { errors: vec![(at, VerboseErrorKind::Context(what))] }
}

fn digit(i: &'static str) -> IResult<&'static str, char, VErr> {
    satisfy(|c: char| c.is_ascii_digit())(i)
}

fn letter(i: &'static str) -> IResult<&'static str, char, VErr> {
    satisfy(|c: char| c.is_ascii_alphabetic())(i)
}

fn comma(i: &'static str) -> IResult<&'static str, char, VErr> {
    one_char(',')(i)
}

fn provisional(e: VErr) -> PreservedError<&'static str, VErr> {
    PreservedError::from(e)
}

fn blamed(e: VErr) -> PreservedError<&'static str, VErr> {
    PreservedError { _marker: std::marker::PhantomData, inner: PreservedErrorInner::Blamed(e) }
}

fn is_default(p: &PreservedError<&'static str, VErr>, e: &VErr) -> bool {
    matches!(&p.inner, PreservedErrorInner::Default(x) if x == e)
}

fn is_blamed(p: &PreservedError<&'static str, VErr>, e: &VErr) -> bool {
    matches!(&p.inner, PreservedErrorInner::Blamed(x) if x == e)
}

#[test]
fn capture_passes_success_through() {
    let mut stack: Stack = vec![provisional(named("a", "A"))];
    let mut p = digit;
    let r = preserve(&mut stack, &mut p, "5x");
    assert_eq!(r, Ok(("x", '5')));
    assert_eq!(stack.len(), 1);
    assert!(is_default(&stack[0], &named("a", "A")));
}

#[test]
fn capture_records_recoverable_failure() {
    let mut stack: Stack = vec![provisional(named("a", "A"))];
    let mut p = digit;
    let r = preserve(&mut stack, &mut p, "x");
    assert_eq!(r, digit("x"));
    let e = match r {
        Err(nom::Err::Error(e)) => e,
        other => panic!("unexpected {:?}", other),
    };
    assert_eq!(stack.len(), 2);
    assert!(is_default(&stack[0], &named("a", "A")));
    assert!(is_default(&stack[1], &e));
}

#[test]
fn capture_records_fatal_failure() {
    let mut stack: Stack = vec![provisional(named("a", "A"))];
    let mut p = |_i: &'static str| -> IResult<&'static str, char, VErr> {
        Err(nom::Err::Failure(named("f", "fatal")))
    };
    let r = preserve(&mut stack, &mut p, "f");
    assert_eq!(r, Err(nom::Err::Failure(named("f", "fatal"))));
    assert_eq!(stack.len(), 2);
    assert!(is_default(&stack[0], &named("a", "A")));
    assert!(is_default(&stack[1], &named("f", "fatal")));
}

#[test]
fn promotion_twice_same_as_once() {
    let mut once: Stack = vec![provisional(named("a", "A")), provisional(named("b", "B"))];
    promote_last(&mut once);
    let mut twice: Stack = vec![provisional(named("a", "A")), provisional(named("b", "B"))];
    promote_last(&mut twice);
    promote_last(&mut twice);
    for s in [&once, &twice] {
        assert_eq!(s.len(), 2);
        assert!(is_default(&s[0], &named("a", "A")));
        assert!(is_blamed(&s[1], &named("b", "B")));
    }
}

#[test]
fn promotion_of_empty_stack() {
    let mut stack: Stack = Vec::new();
    promote_last(&mut stack);
    assert!(stack.is_empty());
}

#[test]
fn blame_promotes_on_success() {
    let mut p = |i: &'static str| -> IResult<&'static str, (char, Stack), VErr> {
        let (rest, c) = digit(i)?;
        Ok((rest, (c, vec![provisional(named("a", "A")), provisional(named("b", "B"))])))
    };
    let (rest, (c, stack)) = blame(&mut p, "7y").unwrap();
    assert_eq!(rest, "y");
    assert_eq!(c, '7');
    assert!(is_default(&stack[0], &named("a", "A")));
    assert!(is_blamed(&stack[1], &named("b", "B")));
}

#[test]
fn blame_passes_failure_through() {
    let mut p = |i: &'static str| -> IResult<&'static str, (char, Stack), VErr> {
        let (rest, c) = digit(i)?;
        Ok((rest, (c, Vec::new())))
    };
    let r = blame(&mut p, "y");
    assert_eq!(r.err(), digit("y").err());
}

#[test]
fn override_keeps_blamed_content() {
    let b = blamed(named("a", "A")).or(named("c", "C"));
    assert!(is_blamed(&b, &named("a", "A")));
    let d = provisional(named("a", "A")).or(named("c", "C"));
    assert!(is_default(&d, &named("a", "A").merge(named("c", "C"))));
    assert!(is_default(&d, &named("c", "C")));
}

#[test]
fn into_inner_drops_tag() {
    assert_eq!(blamed(named("a", "A")).into_inner(), named("a", "A"));
    assert_eq!(provisional(named("b", "B")).into_inner(), named("b", "B"));
}

#[test]
fn merge_of_nom_errors_keeps_other() {
    assert_eq!(named("a", "A").merge(named("b", "B")), named("b", "B"));
    let one = nom::error::Error::new("a", ErrorKind::Tag);
    let two = nom::error::Error::new("b", ErrorKind::Digit);
    assert_eq!(one.merge(two), nom::error::Error::new("b", ErrorKind::Digit));
}

#[test]
fn fold_blamed_then_defaults() {
    let stack = vec![
        provisional(named("x", "X")),
        blamed(named("a", "A")),
        provisional(named("b", "B")),
        provisional(named("c", "C")),
    ];
    assert_eq!(fold_stack(named("base", "base"), stack), named("a", "A"));
}

#[test]
fn fold_follows_stack_order() {
    let ab = vec![blamed(named("a", "A")), blamed(named("b", "B"))];
    let ba = vec![blamed(named("b", "B")), blamed(named("a", "A"))];
    assert_eq!(fold_stack(named("base", "base"), ab), named("b", "B"));
    assert_eq!(fold_stack(named("base", "base"), ba), named("a", "A"));
}

#[test]
fn fold_empty_stack() {
    let stack: Stack = Vec::new();
    assert_eq!(fold_stack(named(",", "expected ','"), stack), named(",", "expected ','"));
}

#[test]
fn fold_two_defaults() {
    let stack = vec![provisional(named("a", "A")), provisional(named("b", "B"))];
    let expected = named("base", "base").merge(named("a", "A")).merge(named("b", "B"));
    assert_eq!(fold_stack(named("base", "base"), stack), expected);
    let stack = vec![provisional(named("b", "B"))];
    assert_eq!(fold_stack(named("a", "A"), stack), named("b", "B"));
}

#[test]
fn fold_default_blamed_default() {
    let stack = vec![
        provisional(named("a", "A")),
        blamed(named("b", "B")),
        provisional(named("c", "C")),
    ];
    assert_eq!(fold_stack(named("base", "base"), stack), named("b", "B"));
}

#[test]
fn wrap_lifts_failures() {
    let mut p = |i: &'static str| -> IResult<&'static str, (char, Stack), VErr> {
        let (rest, c) = digit(i)?;
        Ok((rest, (c, Vec::new())))
    };
    match wrap(&mut p, "q") {
        Err(nom::Err::Error(e)) => assert!(is_default(&e, &digit("q").err().map(|x| match x {
            nom::Err::Error(x) => x,
            _ => panic!(),
        }).unwrap())),
        _ => panic!("expected a recoverable failure"),
    }
    let mut f = |_i: &'static str| -> IResult<&'static str, (char, Stack), VErr> {
        Err(nom::Err::Failure(named("f", "fatal")))
    };
    match wrap(&mut f, "q") {
        Err(nom::Err::Failure(e)) => assert!(is_default(&e, &named("f", "fatal"))),
        _ => panic!("expected a fatal failure"),
    }
    let (rest, (c, stack)) = wrap(&mut p, "3z").unwrap();
    assert_eq!((rest, c, stack.len()), ("z", '3', 0));
}

#[test]
fn raw_errors_keep_order() {
    let stack = vec![blamed(named("a", "A")), provisional(named("b", "B"))];
    assert_eq!(into_raw_errors(stack), vec![named("a", "A"), named("b", "B")]);
}

#[test]
fn sequence_keeps_severity() {
    let stack = vec![blamed(named("a", "A"))];
    let last: IResult<&'static str, char, VErr> = Err(nom::Err::Failure(named("z", "Z")));
    assert_eq!(finish_sequence('k', stack, last), Err(nom::Err::Failure(named("a", "A"))));
    let stack = vec![blamed(named("a", "A"))];
    let last: IResult<&'static str, char, VErr> = Err(nom::Err::Error(named("z", "Z")));
    assert_eq!(finish_sequence('k', stack, last), Err(nom::Err::Error(named("a", "A"))));

    let mut first = |i: &'static str| -> IResult<&'static str, (char, Stack), VErr> {
        let (rest, c) = digit(i)?;
        Ok((rest, (c, vec![provisional(named("p", "P"))])))
    };
    let mut fatal = |_i: &'static str| -> IResult<&'static str, char, VErr> {
        Err(nom::Err::Failure(named("q", "Q")))
    };
    let r = terminated(&mut first, &mut fatal, "1q");
    assert_eq!(r, Err(nom::Err::Failure(named("q", "Q").merge(named("p", "P")))));
    let mut open = comma;
    let r = delimited(&mut open, &mut first, &mut fatal, ",1q");
    assert_eq!(r, Err(nom::Err::Failure(named("p", "P"))));
}

#[test]
fn terminated_success_hands_back_raw_errors() {
    let mut first = |i: &'static str| -> IResult<&'static str, (char, Stack), VErr> {
        let mut stack: Stack = Vec::new();
        let mut l = letter;
        let _ = preserve(&mut stack, &mut l, i);
        let (rest, c) = digit(i)?;
        Ok((rest, (c, stack)))
    };
    let mut second = comma;
    let (rest, (c, errors)) = terminated(&mut first, &mut second, "4,").unwrap();
    assert_eq!((rest, c), ("", '4'));
    assert_eq!(errors.len(), 1);
    assert_eq!(Err(nom::Err::Error(errors[0].clone())), letter("4,"));
}

#[test]
fn delimited_first_failure_untouched() {
    let mut open = comma;
    let mut middle = |i: &'static str| -> IResult<&'static str, (char, Stack), VErr> {
        let (rest, c) = digit(i)?;
        Ok((rest, (c, vec![blamed(named("m", "M"))])))
    };
    let mut close = comma;
    assert_eq!(delimited(&mut open, &mut middle, &mut close, "x"), comma("x").map(|(i, _)| (i, ('x', Vec::new()))));
    let (rest, (c, errors)) = delimited(&mut open, &mut middle, &mut close, ",2,!").unwrap();
    assert_eq!((rest, c, errors), ("!", '2', vec![named("m", "M")]));
}

#[test]
fn digit_comma_digit_without_blame() {
    let mut first = |i: &'static str| -> IResult<&'static str, (char, Stack), VErr> {
        let (rest, c) = digit(i)?;
        let (rest, _) = comma(rest)?;
        Ok((rest, (c, Vec::new())))
    };
    let mut second = digit;
    let r = terminated(&mut first, &mut second, "5,x");
    assert_eq!(r.err(), digit("x").err());
}

#[test]
fn digit_comma_digit_with_capture_and_blame() {
    let mut step = |i: &'static str| -> IResult<&'static str, (char, Stack), VErr> {
        let mut stack: Stack = Vec::new();
        let mut d = digit;
        let (rest, c) = preserve(&mut stack, &mut d, i)?;
        let (rest, _) = comma(rest)?;
        Ok((rest, (c, stack)))
    };
    let mut first = |i: &'static str| blame(&mut step, i);
    let mut second = digit;
    let r = terminated(&mut first, &mut second, "5,x");
    assert_eq!(r.err(), digit("x").err());

    let mut near_miss = |i: &'static str| -> IResult<&'static str, (char, Stack), VErr> {
        let mut stack: Stack = Vec::new();
        let mut l = letter;
        let _ = preserve(&mut stack, &mut l, i);
        let (rest, c) = digit(i)?;
        let (rest, _) = comma(rest)?;
        Ok((rest, (c, stack)))
    };
    let mut first = |i: &'static str| blame(&mut near_miss, i);
    let r = terminated(&mut first, &mut second, "5,x");
    assert_eq!(r.err(), letter("5,x").err());
}

#[test]
fn merge_of_nom_pair_and_unit_errors_keeps_other() {
    assert_eq!(("a", ErrorKind::Tag).merge(("b", ErrorKind::Digit)), ("b", ErrorKind::Digit));
    assert_eq!(().merge(()), ());
}

#[test]
fn blame_twice_same_as_once() {
    let mut step = |i: &'static str| -> IResult<&'static str, (char, Stack), VErr> {
        let (rest, c) = digit(i)?;
        Ok((rest, (c, vec![provisional(named("a", "A")), provisional(named("b", "B"))])))
    };
    let mut once = |i: &'static str| blame(&mut step, i);
    let (rest, (c, stack)) = blame(&mut once, "8;").unwrap();
    assert_eq!((rest, c, stack.len()), (";", '8', 2));
    assert!(is_default(&stack[0], &named("a", "A")));
    assert!(is_blamed(&stack[1], &named("b", "B")));
    let mut twice = |i: &'static str| blame(&mut once, i);
    assert_eq!(blame(&mut twice, "z").err(), digit("z").err());
}
