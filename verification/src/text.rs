//! Fixed byte strings of the library: keywords, value spellings and
//! diagnostic messages, each as a specification sequence with the
//! executable vector that realizes it.
use vstd::prelude::*;

verus! {

/// `and`
pub open spec fn txt_and() -> Seq<u8> {
    seq![97u8, 110u8, 100u8]
}

/// Builds `and`.
pub fn txt_and_vec() -> (r: Vec<u8>)
    ensures
        r@ == txt_and(),
{
    let r: Vec<u8> = vec![97u8, 110u8, 100u8];
    proof {
        assert(r@ =~= txt_and());
    }
    r
}

/// `class`
pub open spec fn txt_class() -> Seq<u8> {
    seq![99u8, 108u8, 97u8, 115u8, 115u8]
}

/// Builds `class`.
pub fn txt_class_vec() -> (r: Vec<u8>)
    ensures
        r@ == txt_class(),
{
    let r: Vec<u8> = vec![99u8, 108u8, 97u8, 115u8, 115u8];
    proof {
        assert(r@ =~= txt_class());
    }
    r
}

/// `else`
pub open spec fn txt_else() -> Seq<u8> {
    seq![101u8, 108u8, 115u8, 101u8]
}

/// Builds `else`.
pub fn txt_else_vec() -> (r: Vec<u8>)
    ensures
        r@ == txt_else(),
{
    let r: Vec<u8> = vec![101u8, 108u8, 115u8, 101u8];
    proof {
        assert(r@ =~= txt_else());
    }
    r
}

/// `false`
pub open spec fn txt_false() -> Seq<u8> {
    seq![102u8, 97u8, 108u8, 115u8, 101u8]
}

/// Builds `false`.
pub fn txt_false_vec() -> (r: Vec<u8>)
    ensures
        r@ == txt_false(),
{
    let r: Vec<u8> = vec![102u8, 97u8, 108u8, 115u8, 101u8];
    proof {
        assert(r@ =~= txt_false());
    }
    r
}

/// `for`
pub open spec fn txt_for() -> Seq<u8> {
    seq![102u8, 111u8, 114u8]
}

/// Builds `for`.
pub fn txt_for_vec() -> (r: Vec<u8>)
    ensures
        r@ == txt_for(),
{
    let r: Vec<u8> = vec![102u8, 111u8, 114u8];
    proof {
        assert(r@ =~= txt_for());
    }
    r
}

/// `fun`
pub open spec fn txt_fun() -> Seq<u8> {
    seq![102u8, 117u8, 110u8]
}

/// Builds `fun`.
pub fn txt_fun_vec() -> (r: Vec<u8>)
    ensures
        r@ == txt_fun(),
{
    let r: Vec<u8> = vec![102u8, 117u8, 110u8];
    proof {
        assert(r@ =~= txt_fun());
    }
    r
}

/// `if`
pub open spec fn txt_if() -> Seq<u8> {
    seq![105u8, 102u8]
}

/// Builds `if`.
pub fn txt_if_vec() -> (r: Vec<u8>)
    ensures
        r@ == txt_if(),
{
    let r: Vec<u8> = vec![105u8, 102u8];
    proof {
        assert(r@ =~= txt_if());
    }
    r
}

/// `nil`
pub open spec fn txt_nil() -> Seq<u8> {
    seq![110u8, 105u8, 108u8]
}

/// Builds `nil`.
pub fn txt_nil_vec() -> (r: Vec<u8>)
    ensures
        r@ == txt_nil(),
{
    let r: Vec<u8> = vec![110u8, 105u8, 108u8];
    proof {
        assert(r@ =~= txt_nil());
    }
    r
}

/// `or`
pub open spec fn txt_or() -> Seq<u8> {
    seq![111u8, 114u8]
}

/// Builds `or`.
pub fn txt_or_vec() -> (r: Vec<u8>)
    ensures
        r@ == txt_or(),
{
    let r: Vec<u8> = vec![111u8, 114u8];
    proof {
        assert(r@ =~= txt_or());
    }
    r
}

/// `print`
pub open spec fn txt_print() -> Seq<u8> {
    seq![112u8, 114u8, 105u8, 110u8, 116u8]
}

/// Builds `print`.
pub fn txt_print_vec() -> (r: Vec<u8>)
    ensures
        r@ == txt_print(),
{
    let r: Vec<u8> = vec![112u8, 114u8, 105u8, 110u8, 116u8];
    proof {
        assert(r@ =~= txt_print());
    }
    r
}

/// `return`
pub open spec fn txt_return() -> Seq<u8> {
    seq![114u8, 101u8, 116u8, 117u8, 114u8, 110u8]
}

/// Builds `return`.
pub fn txt_return_vec() -> (r: Vec<u8>)
    ensures
        r@ == txt_return(),
{
    let r: Vec<u8> = vec![114u8, 101u8, 116u8, 117u8, 114u8, 110u8];
    proof {
        assert(r@ =~= txt_return());
    }
    r
}

/// `super`
pub open spec fn txt_super() -> Seq<u8> {
    seq![115u8, 117u8, 112u8, 101u8, 114u8]
}

/// Builds `super`.
pub fn txt_super_vec() -> (r: Vec<u8>)
    ensures
        r@ == txt_super(),
{
    let r: Vec<u8> = vec![115u8, 117u8, 112u8, 101u8, 114u8];
    proof {
        assert(r@ =~= txt_super());
    }
    r
}

/// `this`
pub open spec fn txt_this() -> Seq<u8> {
    seq![116u8, 104u8, 105u8, 115u8]
}

/// Builds `this`.
pub fn txt_this_vec() -> (r: Vec<u8>)
    ensures
        r@ == txt_this(),
{
    let r: Vec<u8> = vec![116u8, 104u8, 105u8, 115u8];
    proof {
        assert(r@ =~= txt_this());
    }
    r
}

/// `true`
pub open spec fn txt_true() -> Seq<u8> {
    seq![116u8, 114u8, 117u8, 101u8]
}

/// Builds `true`.
pub fn txt_true_vec() -> (r: Vec<u8>)
    ensures
        r@ == txt_true(),
{
    let r: Vec<u8> = vec![116u8, 114u8, 117u8, 101u8];
    proof {
        assert(r@ =~= txt_true());
    }
    r
}

/// `var`
pub open spec fn txt_var() -> Seq<u8> {
    seq![118u8, 97u8, 114u8]
}

/// Builds `var`.
pub fn txt_var_vec() -> (r: Vec<u8>)
    ensures
        r@ == txt_var(),
{
    let r: Vec<u8> = vec![118u8, 97u8, 114u8];
    proof {
        assert(r@ =~= txt_var());
    }
    r
}

/// `while`
pub open spec fn txt_while() -> Seq<u8> {
    seq![119u8, 104u8, 105u8, 108u8, 101u8]
}

/// Builds `while`.
pub fn txt_while_vec() -> (r: Vec<u8>)
    ensures
        r@ == txt_while(),
{
    let r: Vec<u8> = vec![119u8, 104u8, 105u8, 108u8, 101u8];
    proof {
        assert(r@ =~= txt_while());
    }
    r
}

/// `group`
pub open spec fn txt_group() -> Seq<u8> {
    seq![103u8, 114u8, 111u8, 117u8, 112u8]
}

/// Builds `group`.
pub fn txt_group_vec() -> (r: Vec<u8>)
    ensures
        r@ == txt_group(),
{
    let r: Vec<u8> = vec![103u8, 114u8, 111u8, 117u8, 112u8];
    proof {
        assert(r@ =~= txt_group());
    }
    r
}

/// `string not closed`
pub open spec fn msg_string_not_closed() -> Seq<u8> {
    seq![115u8, 116u8, 114u8, 105u8, 110u8, 103u8, 32u8, 110u8, 111u8, 116u8, 32u8, 99u8, 108u8, 111u8, 115u8, 101u8, 100u8]
}

/// Builds `string not closed`.
pub fn msg_string_not_closed_vec() -> (r: Vec<u8>)
    ensures
        r@ == msg_string_not_closed(),
{
    let r: Vec<u8> = vec![115u8, 116u8, 114u8, 105u8, 110u8, 103u8, 32u8, 110u8, 111u8, 116u8, 32u8, 99u8, 108u8, 111u8, 115u8, 101u8, 100u8];
    proof {
        assert(r@ =~= msg_string_not_closed());
    }
    r
}

/// `encountered unexpected character: `
pub open spec fn msg_unexpected_char() -> Seq<u8> {
    seq![101u8, 110u8, 99u8, 111u8, 117u8, 110u8, 116u8, 101u8, 114u8, 101u8, 100u8, 32u8, 117u8, 110u8, 101u8, 120u8, 112u8, 101u8, 99u8, 116u8, 101u8, 100u8, 32u8, 99u8, 104u8, 97u8, 114u8, 97u8, 99u8, 116u8, 101u8, 114u8, 58u8, 32u8]
}

/// Builds `encountered unexpected character: `.
pub fn msg_unexpected_char_vec() -> (r: Vec<u8>)
    ensures
        r@ == msg_unexpected_char(),
{
    let r: Vec<u8> = vec![101u8, 110u8, 99u8, 111u8, 117u8, 110u8, 116u8, 101u8, 114u8, 101u8, 100u8, 32u8, 117u8, 110u8, 101u8, 120u8, 112u8, 101u8, 99u8, 116u8, 101u8, 100u8, 32u8, 99u8, 104u8, 97u8, 114u8, 97u8, 99u8, 116u8, 101u8, 114u8, 58u8, 32u8];
    proof {
        assert(r@ =~= msg_unexpected_char());
    }
    r
}

/// `Expect variable name.`
pub open spec fn msg_expect_var_name() -> Seq<u8> {
    seq![69u8, 120u8, 112u8, 101u8, 99u8, 116u8, 32u8, 118u8, 97u8, 114u8, 105u8, 97u8, 98u8, 108u8, 101u8, 32u8, 110u8, 97u8, 109u8, 101u8, 46u8]
}

/// Builds `Expect variable name.`.
pub fn msg_expect_var_name_vec() -> (r: Vec<u8>)
    ensures
        r@ == msg_expect_var_name(),
{
    let r: Vec<u8> = vec![69u8, 120u8, 112u8, 101u8, 99u8, 116u8, 32u8, 118u8, 97u8, 114u8, 105u8, 97u8, 98u8, 108u8, 101u8, 32u8, 110u8, 97u8, 109u8, 101u8, 46u8];
    proof {
        assert(r@ =~= msg_expect_var_name());
    }
    r
}

/// `Expect ';' after variable declaration.`
pub open spec fn msg_expect_semi_decl() -> Seq<u8> {
    seq![69u8, 120u8, 112u8, 101u8, 99u8, 116u8, 32u8, 39u8, 59u8, 39u8, 32u8, 97u8, 102u8, 116u8, 101u8, 114u8, 32u8, 118u8, 97u8, 114u8, 105u8, 97u8, 98u8, 108u8, 101u8, 32u8, 100u8, 101u8, 99u8, 108u8, 97u8, 114u8, 97u8, 116u8, 105u8, 111u8, 110u8, 46u8]
}

/// Builds `Expect ';' after variable declaration.`.
pub fn msg_expect_semi_decl_vec() -> (r: Vec<u8>)
    ensures
        r@ == msg_expect_semi_decl(),
{
    let r: Vec<u8> = vec![69u8, 120u8, 112u8, 101u8, 99u8, 116u8, 32u8, 39u8, 59u8, 39u8, 32u8, 97u8, 102u8, 116u8, 101u8, 114u8, 32u8, 118u8, 97u8, 114u8, 105u8, 97u8, 98u8, 108u8, 101u8, 32u8, 100u8, 101u8, 99u8, 108u8, 97u8, 114u8, 97u8, 116u8, 105u8, 111u8, 110u8, 46u8];
    proof {
        assert(r@ =~= msg_expect_semi_decl());
    }
    r
}

/// `Expect ';' after value.`
pub open spec fn msg_expect_semi_value() -> Seq<u8> {
    seq![69u8, 120u8, 112u8, 101u8, 99u8, 116u8, 32u8, 39u8, 59u8, 39u8, 32u8, 97u8, 102u8, 116u8, 101u8, 114u8, 32u8, 118u8, 97u8, 108u8, 117u8, 101u8, 46u8]
}

/// Builds `Expect ';' after value.`.
pub fn msg_expect_semi_value_vec() -> (r: Vec<u8>)
    ensures
        r@ == msg_expect_semi_value(),
{
    let r: Vec<u8> = vec![69u8, 120u8, 112u8, 101u8, 99u8, 116u8, 32u8, 39u8, 59u8, 39u8, 32u8, 97u8, 102u8, 116u8, 101u8, 114u8, 32u8, 118u8, 97u8, 108u8, 117u8, 101u8, 46u8];
    proof {
        assert(r@ =~= msg_expect_semi_value());
    }
    r
}

/// `Expect ')' after expression.`
pub open spec fn msg_expect_rparen() -> Seq<u8> {
    seq![69u8, 120u8, 112u8, 101u8, 99u8, 116u8, 32u8, 39u8, 41u8, 39u8, 32u8, 97u8, 102u8, 116u8, 101u8, 114u8, 32u8, 101u8, 120u8, 112u8, 114u8, 101u8, 115u8, 115u8, 105u8, 111u8, 110u8, 46u8]
}

/// Builds `Expect ')' after expression.`.
pub fn msg_expect_rparen_vec() -> (r: Vec<u8>)
    ensures
        r@ == msg_expect_rparen(),
{
    let r: Vec<u8> = vec![69u8, 120u8, 112u8, 101u8, 99u8, 116u8, 32u8, 39u8, 41u8, 39u8, 32u8, 97u8, 102u8, 116u8, 101u8, 114u8, 32u8, 101u8, 120u8, 112u8, 114u8, 101u8, 115u8, 115u8, 105u8, 111u8, 110u8, 46u8];
    proof {
        assert(r@ =~= msg_expect_rparen());
    }
    r
}

/// `Expect expression.`
pub open spec fn msg_expect_expression() -> Seq<u8> {
    seq![69u8, 120u8, 112u8, 101u8, 99u8, 116u8, 32u8, 101u8, 120u8, 112u8, 114u8, 101u8, 115u8, 115u8, 105u8, 111u8, 110u8, 46u8]
}

/// Builds `Expect expression.`.
pub fn msg_expect_expression_vec() -> (r: Vec<u8>)
    ensures
        r@ == msg_expect_expression(),
{
    let r: Vec<u8> = vec![69u8, 120u8, 112u8, 101u8, 99u8, 116u8, 32u8, 101u8, 120u8, 112u8, 114u8, 101u8, 115u8, 115u8, 105u8, 111u8, 110u8, 46u8];
    proof {
        assert(r@ =~= msg_expect_expression());
    }
    r
}

/// `operand of unary '-' must be a number`
pub open spec fn msg_neg_operand() -> Seq<u8> {
    seq![111u8, 112u8, 101u8, 114u8, 97u8, 110u8, 100u8, 32u8, 111u8, 102u8, 32u8, 117u8, 110u8, 97u8, 114u8, 121u8, 32u8, 39u8, 45u8, 39u8, 32u8, 109u8, 117u8, 115u8, 116u8, 32u8, 98u8, 101u8, 32u8, 97u8, 32u8, 110u8, 117u8, 109u8, 98u8, 101u8, 114u8]
}

/// Builds `operand of unary '-' must be a number`.
pub fn msg_neg_operand_vec() -> (r: Vec<u8>)
    ensures
        r@ == msg_neg_operand(),
{
    let r: Vec<u8> = vec![111u8, 112u8, 101u8, 114u8, 97u8, 110u8, 100u8, 32u8, 111u8, 102u8, 32u8, 117u8, 110u8, 97u8, 114u8, 121u8, 32u8, 39u8, 45u8, 39u8, 32u8, 109u8, 117u8, 115u8, 116u8, 32u8, 98u8, 101u8, 32u8, 97u8, 32u8, 110u8, 117u8, 109u8, 98u8, 101u8, 114u8];
    proof {
        assert(r@ =~= msg_neg_operand());
    }
    r
}

/// `unary operator must be '!' or '-'`
pub open spec fn msg_bad_unary() -> Seq<u8> {
    seq![117u8, 110u8, 97u8, 114u8, 121u8, 32u8, 111u8, 112u8, 101u8, 114u8, 97u8, 116u8, 111u8, 114u8, 32u8, 109u8, 117u8, 115u8, 116u8, 32u8, 98u8, 101u8, 32u8, 39u8, 33u8, 39u8, 32u8, 111u8, 114u8, 32u8, 39u8, 45u8, 39u8]
}

/// Builds `unary operator must be '!' or '-'`.
pub fn msg_bad_unary_vec() -> (r: Vec<u8>)
    ensures
        r@ == msg_bad_unary(),
{
    let r: Vec<u8> = vec![117u8, 110u8, 97u8, 114u8, 121u8, 32u8, 111u8, 112u8, 101u8, 114u8, 97u8, 116u8, 111u8, 114u8, 32u8, 109u8, 117u8, 115u8, 116u8, 32u8, 98u8, 101u8, 32u8, 39u8, 33u8, 39u8, 32u8, 111u8, 114u8, 32u8, 39u8, 45u8, 39u8];
    proof {
        assert(r@ =~= msg_bad_unary());
    }
    r
}

/// `operands must be numbers`
pub open spec fn msg_num_operands() -> Seq<u8> {
    seq![111u8, 112u8, 101u8, 114u8, 97u8, 110u8, 100u8, 115u8, 32u8, 109u8, 117u8, 115u8, 116u8, 32u8, 98u8, 101u8, 32u8, 110u8, 117u8, 109u8, 98u8, 101u8, 114u8, 115u8]
}

/// Builds `operands must be numbers`.
pub fn msg_num_operands_vec() -> (r: Vec<u8>)
    ensures
        r@ == msg_num_operands(),
{
    let r: Vec<u8> = vec![111u8, 112u8, 101u8, 114u8, 97u8, 110u8, 100u8, 115u8, 32u8, 109u8, 117u8, 115u8, 116u8, 32u8, 98u8, 101u8, 32u8, 110u8, 117u8, 109u8, 98u8, 101u8, 114u8, 115u8];
    proof {
        assert(r@ =~= msg_num_operands());
    }
    r
}

/// `operands of '+' must be two numbers or two strings`
pub open spec fn msg_add_operands() -> Seq<u8> {
    seq![111u8, 112u8, 101u8, 114u8, 97u8, 110u8, 100u8, 115u8, 32u8, 111u8, 102u8, 32u8, 39u8, 43u8, 39u8, 32u8, 109u8, 117u8, 115u8, 116u8, 32u8, 98u8, 101u8, 32u8, 116u8, 119u8, 111u8, 32u8, 110u8, 117u8, 109u8, 98u8, 101u8, 114u8, 115u8, 32u8, 111u8, 114u8, 32u8, 116u8, 119u8, 111u8, 32u8, 115u8, 116u8, 114u8, 105u8, 110u8, 103u8, 115u8]
}

/// Builds `operands of '+' must be two numbers or two strings`.
pub fn msg_add_operands_vec() -> (r: Vec<u8>)
    ensures
        r@ == msg_add_operands(),
{
    let r: Vec<u8> = vec![111u8, 112u8, 101u8, 114u8, 97u8, 110u8, 100u8, 115u8, 32u8, 111u8, 102u8, 32u8, 39u8, 43u8, 39u8, 32u8, 109u8, 117u8, 115u8, 116u8, 32u8, 98u8, 101u8, 32u8, 116u8, 119u8, 111u8, 32u8, 110u8, 117u8, 109u8, 98u8, 101u8, 114u8, 115u8, 32u8, 111u8, 114u8, 32u8, 116u8, 119u8, 111u8, 32u8, 115u8, 116u8, 114u8, 105u8, 110u8, 103u8, 115u8];
    proof {
        assert(r@ =~= msg_add_operands());
    }
    r
}

/// `binary operator is not supported`
pub open spec fn msg_bad_binary() -> Seq<u8> {
    seq![98u8, 105u8, 110u8, 97u8, 114u8, 121u8, 32u8, 111u8, 112u8, 101u8, 114u8, 97u8, 116u8, 111u8, 114u8, 32u8, 105u8, 115u8, 32u8, 110u8, 111u8, 116u8, 32u8, 115u8, 117u8, 112u8, 112u8, 111u8, 114u8, 116u8, 101u8, 100u8]
}

/// Builds `binary operator is not supported`.
pub fn msg_bad_binary_vec() -> (r: Vec<u8>)
    ensures
        r@ == msg_bad_binary(),
{
    let r: Vec<u8> = vec![98u8, 105u8, 110u8, 97u8, 114u8, 121u8, 32u8, 111u8, 112u8, 101u8, 114u8, 97u8, 116u8, 111u8, 114u8, 32u8, 105u8, 115u8, 32u8, 110u8, 111u8, 116u8, 32u8, 115u8, 117u8, 112u8, 112u8, 111u8, 114u8, 116u8, 101u8, 100u8];
    proof {
        assert(r@ =~= msg_bad_binary());
    }
    r
}

/// `undefined variable '`
pub open spec fn msg_undefined_prefix() -> Seq<u8> {
    seq![117u8, 110u8, 100u8, 101u8, 102u8, 105u8, 110u8, 101u8, 100u8, 32u8, 118u8, 97u8, 114u8, 105u8, 97u8, 98u8, 108u8, 101u8, 32u8, 39u8]
}

/// Builds `undefined variable '`.
pub fn msg_undefined_prefix_vec() -> (r: Vec<u8>)
    ensures
        r@ == msg_undefined_prefix(),
{
    let r: Vec<u8> = vec![117u8, 110u8, 100u8, 101u8, 102u8, 105u8, 110u8, 101u8, 100u8, 32u8, 118u8, 97u8, 114u8, 105u8, 97u8, 98u8, 108u8, 101u8, 32u8, 39u8];
    proof {
        assert(r@ =~= msg_undefined_prefix());
    }
    r
}

/// `'`
pub open spec fn txt_quote() -> Seq<u8> {
    seq![39u8]
}

/// Builds `'`.
pub fn txt_quote_vec() -> (r: Vec<u8>)
    ensures
        r@ == txt_quote(),
{
    let r: Vec<u8> = vec![39u8];
    proof {
        assert(r@ =~= txt_quote());
    }
    r
}

/// `[line `
pub open spec fn txt_line_open() -> Seq<u8> {
    seq![91u8, 108u8, 105u8, 110u8, 101u8, 32u8]
}

/// Builds `[line `.
pub fn txt_line_open_vec() -> (r: Vec<u8>)
    ensures
        r@ == txt_line_open(),
{
    let r: Vec<u8> = vec![91u8, 108u8, 105u8, 110u8, 101u8, 32u8];
    proof {
        assert(r@ =~= txt_line_open());
    }
    r
}

/// `] Error `
pub open spec fn txt_error_mid() -> Seq<u8> {
    seq![93u8, 32u8, 69u8, 114u8, 114u8, 111u8, 114u8, 32u8]
}

/// Builds `] Error `.
pub fn txt_error_mid_vec() -> (r: Vec<u8>)
    ensures
        r@ == txt_error_mid(),
{
    let r: Vec<u8> = vec![93u8, 32u8, 69u8, 114u8, 114u8, 111u8, 114u8, 32u8];
    proof {
        assert(r@ =~= txt_error_mid());
    }
    r
}

/// `: `
pub open spec fn txt_colon() -> Seq<u8> {
    seq![58u8, 32u8]
}

/// Builds `: `.
pub fn txt_colon_vec() -> (r: Vec<u8>)
    ensures
        r@ == txt_colon(),
{
    let r: Vec<u8> = vec![58u8, 32u8];
    proof {
        assert(r@ =~= txt_colon());
    }
    r
}

/// `at end`
pub open spec fn txt_at_end() -> Seq<u8> {
    seq![97u8, 116u8, 32u8, 101u8, 110u8, 100u8]
}

/// Builds `at end`.
pub fn txt_at_end_vec() -> (r: Vec<u8>)
    ensures
        r@ == txt_at_end(),
{
    let r: Vec<u8> = vec![97u8, 116u8, 32u8, 101u8, 110u8, 100u8];
    proof {
        assert(r@ =~= txt_at_end());
    }
    r
}

/// `at '`
pub open spec fn txt_at_open() -> Seq<u8> {
    seq![97u8, 116u8, 32u8, 39u8]
}

/// Builds `at '`.
pub fn txt_at_open_vec() -> (r: Vec<u8>)
    ensures
        r@ == txt_at_open(),
{
    let r: Vec<u8> = vec![97u8, 116u8, 32u8, 39u8];
    proof {
        assert(r@ =~= txt_at_open());
    }
    r
}

} // verus!
