use cargo_light::{analyze, Binding, Case, Event, LogicError, Pattern, ShadowCounter, Tone};
use syn::visit::{self, Visit};

struct Walk {
    events: Vec<Event>,
}

impl<'ast> Visit<'ast> for Walk {
    fn visit_item_fn(&mut self, item: &'ast syn::ItemFn) {
        self.events.push(Event::ItemFn {
            name: item.ident.to_string(),
            line: item.ident.span().start().line,
        });
        visit::visit_item_fn(self, item);
    }

    fn visit_impl_item_method(&mut self, item: &'ast syn::ImplItemMethod) {
        self.events.push(Event::ImplItemMethod {
            name: item.sig.ident.to_string(),
            line: item.sig.ident.span().start().line,
        });
        visit::visit_impl_item_method(self, item);
    }

    fn visit_local(&mut self, local: &'ast syn::Local) {
        let mut patterns = Vec::new();
        for pat in local.pats.iter() {
            patterns.push(match pat {
                syn::Pat::Ident(bound) => Pattern::Ident(Binding {
                    name: bound.ident.to_string(),
                    line: bound.ident.span().start().line,
                }),
                _ => Pattern::Other,
            });
        }
        self.events.push(Event::Local { patterns });
        visit::visit_local(self, local);
    }
}

fn walk(source: &str) -> Vec<Event> {
    let file = syn::parse_file(source).unwrap();
    let mut walk = Walk { events: Vec::new() };
    visit::visit_file(&mut walk, &file);
    walk.events
}

fn run<'a>(filename: &'a str, source: &str) -> Result<ShadowCounter<'a>, LogicError> {
    analyze(filename, &walk(source))
}

#[test]
fn a_second_let_of_a_name_is_a_shadow() {
    let counter = run("a.rs", "fn f() {\n    let x = 1;\n    let x = 2;\n}\n").unwrap();
    assert_eq!(counter.funcs().len(), 1);
    let scope = &counter.funcs()[0];
    assert_eq!(scope.name(), "f");
    assert_eq!(scope.loc(), 1);
    assert_eq!(scope.vars().len(), 1);
    assert_eq!(scope.vars()[0].name(), "x");
    assert_eq!(scope.vars()[0].count().locs(), &vec![Case::new(2, true), Case::new(3, false)]);
    assert!(scope.has_shadow());
    assert!(counter.has_shadow());
}

#[test]
fn distinct_names_are_no_shadow_and_are_not_reported() {
    let counter = run("b.rs", "fn f() {\n    let x = 1;\n    let y = 2;\n}\n").unwrap();
    assert_eq!(counter.funcs().len(), 1);
    assert!(!counter.funcs()[0].has_shadow());
    assert!(!counter.has_shadow());
    assert_eq!(counter.funcs()[0].vars().len(), 2);
    let spans = counter.layout();
    assert_eq!(spans.len(), 2);
    assert_eq!(spans[0].text, "b.rs");
    assert_eq!(spans[1].text, " contains shadowed variable(s):\n\n");
    assert!(spans.iter().all(|s| s.tone == Tone::Plain));
}

#[test]
fn a_method_with_three_lets_has_one_original_and_two_shadows() {
    let source = "struct S;\nimpl S {\n    fn m(&self) {\n        let a = 1;\n        let a = 2;\n        let a = 3;\n    }\n}\n";
    let counter = run("c.rs", source).unwrap();
    assert_eq!(counter.funcs().len(), 1);
    let scope = &counter.funcs()[0];
    assert_eq!(scope.name(), "m");
    assert_eq!(scope.loc(), 3);
    assert_eq!(scope.vars().len(), 1);
    let cases = scope.vars()[0].count().locs();
    assert_eq!(cases, &vec![Case::new(4, true), Case::new(5, false), Case::new(6, false)]);
    assert_eq!(cases.iter().filter(|c| c.is_original).count(), 1);
    assert_eq!(cases.iter().filter(|c| !c.is_original).count(), 2);
    assert!(scope.has_shadow());
}

#[test]
fn a_let_before_any_function_is_fatal_for_its_file_only() {
    let bad = "const N: u32 = {\n    let y = 1;\n    y\n};\nfn f() {\n    let x = 1;\n}\n";
    assert_eq!(run("d.rs", bad).err(), Some(LogicError::BindingOutsideScope));
    let next = run("e.rs", "fn f() {\n    let x = 1;\n    let x = 2;\n}\n").unwrap();
    assert_eq!(next.funcs().len(), 1);
    assert!(next.has_shadow());
}

#[test]
fn two_functions_are_two_independent_scopes() {
    let source = "fn f() {\n    let x = 1;\n    let x = 2;\n}\nfn g() {\n    let x = 3;\n    let x = 4;\n    let x = 5;\n}\n";
    let counter = run("e.rs", source).unwrap();
    assert_eq!(counter.funcs().len(), 2);
    assert_eq!(counter.funcs()[0].name(), "f");
    assert_eq!(counter.funcs()[1].name(), "g");
    assert_eq!(counter.funcs()[1].loc(), 5);
    assert_eq!(
        counter.funcs()[0].vars()[0].count().locs(),
        &vec![Case::new(2, true), Case::new(3, false)]
    );
    assert_eq!(
        counter.funcs()[1].vars()[0].count().locs(),
        &vec![Case::new(6, true), Case::new(7, false), Case::new(8, false)]
    );
    assert!(counter.funcs()[0].has_shadow());
    assert!(counter.funcs()[1].has_shadow());
}

#[test]
fn the_same_name_once_in_each_function_is_no_shadow() {
    let counter = run("e.rs", "fn f() {\n    let x = 1;\n}\nfn g() {\n    let x = 2;\n}\n").unwrap();
    assert_eq!(counter.funcs().len(), 2);
    assert!(!counter.funcs()[0].has_shadow());
    assert!(!counter.funcs()[1].has_shadow());
    assert!(!counter.has_shadow());
}

#[test]
fn a_destructuring_pattern_binds_nothing() {
    let counter = run("t.rs", "fn f() {\n    let (a, b) = (1, 2);\n    let a = 3;\n    let ref a = 4;\n}\n").unwrap();
    let scope = &counter.funcs()[0];
    assert_eq!(scope.vars().len(), 1);
    assert_eq!(scope.vars()[0].name(), "a");
    assert_eq!(scope.vars()[0].count().locs(), &vec![Case::new(3, true), Case::new(4, false)]);
}

#[test]
fn a_let_after_a_nested_function_goes_to_the_nested_one() {
    let source = "fn outer() {\n    let x = 1;\n    fn inner() {\n        let y = 2;\n    }\n    let x = 3;\n}\n";
    let counter = run("n.rs", source).unwrap();
    assert_eq!(counter.funcs().len(), 2);
    assert!(!counter.funcs()[0].has_shadow());
    assert_eq!(counter.funcs()[1].name(), "inner");
    assert_eq!(counter.funcs()[1].vars().len(), 2);
    assert!(!counter.has_shadow());
}

#[test]
fn a_let_inside_an_initializer_comes_after_the_let_that_holds_it() {
    let source = "fn f() {\n    let x = {\n        let x = 1;\n        x\n    };\n}\n";
    let counter = run("i.rs", source).unwrap();
    assert_eq!(
        counter.funcs()[0].vars()[0].count().locs(),
        &vec![Case::new(2, true), Case::new(3, false)]
    );
}

#[test]
fn walking_the_same_source_twice_gives_the_same_events() {
    let source = "fn f() {\n    let x = 1;\n    let x = 2;\n}\n";
    let first = run("a.rs", source).unwrap();
    let second = run("a.rs", source).unwrap();
    assert_eq!(first.funcs().len(), second.funcs().len());
    assert_eq!(
        first.funcs()[0].vars()[0].count().locs(),
        second.funcs()[0].vars()[0].count().locs()
    );
    assert_eq!(first.has_shadow(), second.has_shadow());
}
