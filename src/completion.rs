//! What editor completion offers: the keywords and the built-in
//! functions, with their documentation text.
use vstd::prelude::*;

use crate::builtins::BuiltinFunction;

verus! {

/// A keyword with a short description and an example of its use.
pub struct KeywordInfo {
    pub keyword: &'static str,
    pub description: &'static str,
    pub example: &'static str,
}

/// The keywords offered for completion, in order.
pub open spec fn keyword_names() -> Seq<Seq<char>> {
    seq![
        "Set"@,
        "Func"@,
        "Return"@,
        "If"@,
        "Elif"@,
        "Else"@,
        "While"@,
        "For"@,
        "In"@,
        "Break"@,
        "Continue"@,
        "Generator"@,
        "Yield"@,
        "Lazy"@,
        "Force"@,
        "Switch"@,
        "Case"@,
        "Default"@,
        "Import"@,
        "Export"@,
        "From"@,
        "As"@,
        "Lambda"@,
        "True"@,
        "False"@,
        "Null"@,
    ]
}

/// Their descriptions, in order.
pub open spec fn keyword_descriptions() -> Seq<Seq<char>> {
    seq![
        "变量赋值"@,
        "函数定义"@,
        "返回值"@,
        "条件判断"@,
        "否则如果"@,
        "否则"@,
        "循环"@,
        "遍历"@,
        "循环关键字"@,
        "跳出循环"@,
        "继续下一次循环"@,
        "生成器定义"@,
        "生成值"@,
        "惰性求值"@,
        "强制求值"@,
        "分支"@,
        "分支情况"@,
        "默认分支"@,
        "导入模块"@,
        "导出符号"@,
        "导入来源"@,
        "别名"@,
        "匿名函数"@,
        "布尔真"@,
        "布尔假"@,
        "空值"@,
    ]
}

/// Their examples, in order.
pub open spec fn keyword_examples() -> Seq<Seq<char>> {
    seq![
        "Set VAR value"@,
        "Func NAME(params) { ... }"@,
        "Return value"@,
        "If (condition) { ... }"@,
        "Elif (condition) { ... }"@,
        "Else { ... }"@,
        "While (condition) { ... }"@,
        "For VAR In collection { ... }"@,
        "For X In [1,2,3] { ... }"@,
        "Break"@,
        "Continue"@,
        "Generator NAME(params) { ... }"@,
        "Yield value"@,
        "Lazy NAME(expr)"@,
        "Force(lazy_value)"@,
        "Switch (value) { Case x: ... }"@,
        "Case value: statements"@,
        "Default: statements"@,
        "Import {NAME} From \"path\""@,
        "Export NAME"@,
        "Import X From \"path\""@,
        "Import X As Y From \"path\""@,
        "Lambda X -> expr"@,
        "True"@,
        "False"@,
        "Null"@,
    ]
}

/// Every keyword offered for completion, as `keyword_names`,
/// `keyword_descriptions` and `keyword_examples` list them.
pub fn keyword_entries() -> (r: Vec<KeywordInfo>)
    ensures
        r@.len() == keyword_names().len(),
        forall|k: int|
            0 <= k < r@.len() ==> (#[trigger] r@[k]).keyword@ == keyword_names()[k]
                && r@[k].description@ == keyword_descriptions()[k] && r@[k].example@
                == keyword_examples()[k],
{
    let mut v: Vec<KeywordInfo> = Vec::new();
    v.push(KeywordInfo { keyword: "Set", description: "变量赋值", example: "Set VAR value" });
    v.push(KeywordInfo { keyword: "Func", description: "函数定义", example: "Func NAME(params) { ... }" });
    v.push(KeywordInfo { keyword: "Return", description: "返回值", example: "Return value" });
    v.push(KeywordInfo { keyword: "If", description: "条件判断", example: "If (condition) { ... }" });
    v.push(KeywordInfo { keyword: "Elif", description: "否则如果", example: "Elif (condition) { ... }" });
    v.push(KeywordInfo { keyword: "Else", description: "否则", example: "Else { ... }" });
    v.push(KeywordInfo { keyword: "While", description: "循环", example: "While (condition) { ... }" });
    v.push(KeywordInfo { keyword: "For", description: "遍历", example: "For VAR In collection { ... }" });
    v.push(KeywordInfo { keyword: "In", description: "循环关键字", example: "For X In [1,2,3] { ... }" });
    v.push(KeywordInfo { keyword: "Break", description: "跳出循环", example: "Break" });
    v.push(KeywordInfo { keyword: "Continue", description: "继续下一次循环", example: "Continue" });
    v.push(KeywordInfo { keyword: "Generator", description: "生成器定义", example: "Generator NAME(params) { ... }" });
    v.push(KeywordInfo { keyword: "Yield", description: "生成值", example: "Yield value" });
    v.push(KeywordInfo { keyword: "Lazy", description: "惰性求值", example: "Lazy NAME(expr)" });
    v.push(KeywordInfo { keyword: "Force", description: "强制求值", example: "Force(lazy_value)" });
    v.push(KeywordInfo { keyword: "Switch", description: "分支", example: "Switch (value) { Case x: ... }" });
    v.push(KeywordInfo { keyword: "Case", description: "分支情况", example: "Case value: statements" });
    v.push(KeywordInfo { keyword: "Default", description: "默认分支", example: "Default: statements" });
    v.push(KeywordInfo { keyword: "Import", description: "导入模块", example: "Import {NAME} From \"path\"" });
    v.push(KeywordInfo { keyword: "Export", description: "导出符号", example: "Export NAME" });
    v.push(KeywordInfo { keyword: "From", description: "导入来源", example: "Import X From \"path\"" });
    v.push(KeywordInfo { keyword: "As", description: "别名", example: "Import X As Y From \"path\"" });
    v.push(KeywordInfo { keyword: "Lambda", description: "匿名函数", example: "Lambda X -> expr" });
    v.push(KeywordInfo { keyword: "True", description: "布尔真", example: "True" });
    v.push(KeywordInfo { keyword: "False", description: "布尔假", example: "False" });
    v.push(KeywordInfo { keyword: "Null", description: "空值", example: "Null" });
    proof {
        assert forall|k: int| 0 <= k < v@.len() implies (#[trigger] v@[k]).keyword@
            == keyword_names()[k] && v@[k].description@ == keyword_descriptions()[k]
            && v@[k].example@ == keyword_examples()[k] by {
            reveal_strlit("As");
            reveal_strlit("Break");
            reveal_strlit("Case value: statements");
            reveal_strlit("Case");
            reveal_strlit("Continue");
            reveal_strlit("Default");
            reveal_strlit("Default: statements");
            reveal_strlit("Elif (condition) { ... }");
            reveal_strlit("Elif");
            reveal_strlit("Else { ... }");
            reveal_strlit("Else");
            reveal_strlit("Export NAME");
            reveal_strlit("Export");
            reveal_strlit("False");
            reveal_strlit("For VAR In collection { ... }");
            reveal_strlit("For X In [1,2,3] { ... }");
            reveal_strlit("For");
            reveal_strlit("Force");
            reveal_strlit("Force(lazy_value)");
            reveal_strlit("From");
            reveal_strlit("Func NAME(params) { ... }");
            reveal_strlit("Func");
            reveal_strlit("Generator NAME(params) { ... }");
            reveal_strlit("Generator");
            reveal_strlit("If (condition) { ... }");
            reveal_strlit("If");
            reveal_strlit("Import X As Y From \"path\"");
            reveal_strlit("Import X From \"path\"");
            reveal_strlit("Import {NAME} From \"path\"");
            reveal_strlit("Import");
            reveal_strlit("In");
            reveal_strlit("Lambda X -> expr");
            reveal_strlit("Lambda");
            reveal_strlit("Lazy NAME(expr)");
            reveal_strlit("Lazy");
            reveal_strlit("Null");
            reveal_strlit("Return value");
            reveal_strlit("Return");
            reveal_strlit("Set VAR value");
            reveal_strlit("Set");
            reveal_strlit("Switch (value) { Case x: ... }");
            reveal_strlit("Switch");
            reveal_strlit("True");
            reveal_strlit("While (condition) { ... }");
            reveal_strlit("While");
            reveal_strlit("Yield value");
            reveal_strlit("Yield");
            reveal_strlit("函数定义");
            reveal_strlit("分支");
            reveal_strlit("分支情况");
            reveal_strlit("别名");
            reveal_strlit("匿名函数");
            reveal_strlit("变量赋值");
            reveal_strlit("否则");
            reveal_strlit("否则如果");
            reveal_strlit("导入来源");
            reveal_strlit("导入模块");
            reveal_strlit("导出符号");
            reveal_strlit("布尔假");
            reveal_strlit("布尔真");
            reveal_strlit("强制求值");
            reveal_strlit("循环");
            reveal_strlit("循环关键字");
            reveal_strlit("惰性求值");
            reveal_strlit("条件判断");
            reveal_strlit("生成值");
            reveal_strlit("生成器定义");
            reveal_strlit("空值");
            reveal_strlit("继续下一次循环");
            reveal_strlit("跳出循环");
            reveal_strlit("返回值");
            reveal_strlit("遍历");
            reveal_strlit("默认分支");
        }
    }
    v
}

/// The Markdown documentation of a keyword.
pub open spec fn keyword_doc(k: KeywordInfo) -> Seq<char> {
    "**"@ + k.keyword@ + "**\n\n"@ + k.description@ + "\n\n```aether\n"@ + k.example@
        + "\n```"@
}

/// The Markdown documentation of a keyword.
pub fn keyword_markdown(k: &KeywordInfo) -> (r: String)
    ensures
        r@ == keyword_doc(*k),
{
    "**".to_string().concat(k.keyword).concat("**\n\n").concat(k.description).concat(
        "\n\n```aether\n",
    ).concat(k.example).concat("\n```")
}

/// `items` joined with newlines.
pub open spec fn lines_joined(items: Seq<&'static str>) -> Seq<char>
    decreases items.len(),
{
    if items.len() == 0 {
        Seq::empty()
    } else if items.len() == 1 {
        items[0]@
    } else {
        lines_joined(items.drop_last()) + "\n"@ + items.last()@
    }
}

/// The examples of a built-in function, one per line.
pub fn join_examples(items: &[&'static str]) -> (r: String)
    ensures
        r@ == lines_joined(items@),
{
    let mut out = String::new();
    let mut k: usize = 0;
    while k < items.len()
        invariant
            k <= items@.len(),
            out@ == lines_joined(items@.subrange(0, k as int)),
        decreases items@.len() - k,
    {
        proof {
            assert(items@.subrange(0, k + 1).drop_last() =~= items@.subrange(0, k as int));
        }
        if k == 0 {
            out = items[k].to_string();
        } else {
            out = out.concat("\n").concat(items[k]);
        }
        k = k + 1;
    }
    proof {
        assert(items@.subrange(0, items@.len() as int) =~= items@);
    }
    out
}

/// The one-line detail of a built-in function: its signature and category.
pub fn builtin_detail(f: &BuiltinFunction) -> (r: String)
    ensures
        r@ == f.signature@ + " - "@ + f.category@,
{
    f.signature.to_string().concat(" - ").concat(f.category)
}

/// The Markdown documentation of a built-in function: description,
/// category and examples.
pub fn builtin_markdown(f: &BuiltinFunction) -> (r: String)
    ensures
        r@ == f.description@ + "\n\n**分类**: "@ + f.category@ + "\n\n**示例**:\n```aether\n"@
            + lines_joined(f.examples@) + "\n```"@,
{
    f.description.to_string().concat("\n\n**分类**: ").concat(f.category).concat(
        "\n\n**示例**:\n```aether\n",
    ).concat(join_examples(f.examples).as_str()).concat("\n```")
}

/// The snippet inserted for a built-in function: its name and an argument
/// placeholder.
pub fn builtin_snippet(f: &BuiltinFunction) -> (r: String)
    ensures
        r@ == f.name@ + "($1)"@,
{
    f.name.to_string().concat("($1)")
}

} // verus!
