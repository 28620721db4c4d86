use brain_corrosion::parser::parse;
use brain_corrosion::vm::standard::{translate, StandardVmBuilder};
use brain_corrosion::vm::Vm;

fn run_program(source: &str) -> String {
    let tokens = parse(source.as_bytes());
    let ops = translate(&tokens);
    let mut vm = StandardVmBuilder::new().with_output(vec![]).build();
    vm.run(ops).unwrap();
    let mut output = String::new();
    for b in vm.output.iter() {
        output.push(*b as char);
    }
    output
}

#[test]
fn base_helloworld() {
    let result = run_program("++++++++[>++++[>++>+++>+++>+<<<<-]>+>+>->>+[<]<-]>>.>---.+++++++..+++.>>.<-.<.+++.------.--------.>>+.>++.");

    assert_eq!("Hello World!\n", result);
}

#[test]
fn overflow_helloworld() {
    let result = run_program(
        ">++++++++[-<+++++++++>]<.>>+>-[+]++>++>+++[>[->+++<<+++>]<<]>-----.>->
    +++..+++.>-.<<+[>[+>+]>>]<--------------.>>.+++.------.--------.>+.>+.",
    );

    assert_eq!("Hello World!\n", result);
}

#[test]
fn short_helloworld() {
    let result = run_program(
        "--<-<<+[+[<+>--->->->-<<<]>]<<--.<++++++.<<-..<<.<+.>>.>>.<<<.+++.>>.>>-.<<<+.",
    );

    assert_eq!("Hello, World!", result);
}

#[test]
fn shortest_helloworld() {
    let result =
        run_program("+[-->-[>>+>-----<<]<--<---]>-.>>>+.>>..+++[.>]<<<<.+++.------.<<-.>>>>+.");

    assert_eq!("Hello, World!", result);
}
