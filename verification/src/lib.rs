//! A front end and evaluator for a small Lox dialect: source text is scanned
//! into tokens, tokens are parsed into statements, and statements are run
//! against a flat store of variables.
//!
//! Numbers are binary32 values carried as bit patterns. What can be decided
//! from the bits is decided here: sign, order, equality, whether a divisor
//! is zero. What takes rounding or spelling is asked of the caller:
//!
//! - the scanner hands out the spelling of each number and takes the token
//!   of its value ([`scanner::Scanner::scan_tokens`]);
//! - the interpreter hands out each rounded operation as a request,
//!   together with what is left of the program, and goes on from there with
//!   the answer ([`interpreter::Interpreter::interpret`]);
//! - text that mentions a number holds the number itself in the place of
//!   its spelling ([`text::Glyph`]).
//!
//! ```text
//! let mut scanner = Scanner::new(source);
//! while let Some(spelling) = scanner.scan_tokens() {
//!     if let Some(value) = value_of(&spelling) {
//!         scanner.add_token(TokenType::Number(value));
//!     }
//! }
//! let mut program = Parser::new(scanner.into_tokens()).parse()?;
//! let mut answer = None;
//! loop {
//!     match interpreter.interpret(&program, answer) {
//!         Interpretation::Finished => break,
//!         Interpretation::Failed(error) => return Err(error),
//!         Interpretation::Pending { request, residual } => {
//!             answer = Some(compute(request));
//!             program = residual;
//!         }
//!     }
//! }
//! ```
//!
//! What such a loop comes to, whatever `value_of` and `compute` are, is
//! stated in [`scanner::ScannerView::finish`] and in
//! [`interpreter::meaning`], and proved of whole programs in [`pipeline`].

pub mod diagnostic;
pub mod expr;
pub mod interpreter;
pub mod number;
pub mod parser;
pub mod pipeline;
pub mod scanner;
pub mod statement;
pub mod text;
pub mod token;
