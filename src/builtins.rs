//! The catalog of built-in functions, with their documentation.
use vstd::prelude::*;

use crate::text::eq_literal;

verus! {

/// Documentation of one built-in function.
pub struct BuiltinFunction {
    pub name: &'static str,
    pub signature: &'static str,
    pub description: &'static str,
    pub category: &'static str,
    pub examples: &'static [&'static str],
}

/// The names of the catalog, in order.
pub open spec fn builtin_names() -> Seq<Seq<char>> {
    seq![
        "PRINTLN"@,
        "PRINT"@,
        "INPUT"@,
        "MAP"@,
        "FILTER"@,
        "REDUCE"@,
        "LENGTH"@,
        "PUSH"@,
        "POP"@,
        "SORT"@,
        "REVERSE"@,
        "JOIN"@,
        "RANGE"@,
        "SUM"@,
        "MIN"@,
        "MAX"@,
        "SPLIT"@,
        "UPPER"@,
        "LOWER"@,
        "TRIM"@,
        "REPLACE"@,
        "STARTSWITH"@,
        "ENDSWITH"@,
        "SUBSTRING"@,
        "FORMAT"@,
        "ABS"@,
        "FLOOR"@,
        "CEIL"@,
        "ROUND"@,
        "SQRT"@,
        "POW"@,
        "LOG"@,
        "LOG10"@,
        "SIN"@,
        "COS"@,
        "TAN"@,
        "RANDOM"@,
        "TYPE"@,
        "STRING"@,
        "NUMBER"@,
        "ISNUMBER"@,
        "ISSTRING"@,
        "ISARRAY"@,
        "ISDICT"@,
        "KEYS"@,
        "VALUES"@,
        "ITEMS"@,
        "HASKEY"@,
        "JSONPARSE"@,
        "JSONSTRINGIFY"@,
        "NOW"@,
        "FORMATDATE"@,
        "SLEEP"@,
    ]
}

/// The call signatures of the catalog, in order.
pub open spec fn builtin_signatures() -> Seq<Seq<char>> {
    seq![
        "PRINTLN(value...)"@,
        "PRINT(value...)"@,
        "INPUT(prompt)"@,
        "MAP(array, function)"@,
        "FILTER(array, predicate)"@,
        "REDUCE(array, function, initial)"@,
        "LENGTH(array_or_string)"@,
        "PUSH(array, element)"@,
        "POP(array)"@,
        "SORT(array)"@,
        "REVERSE(array)"@,
        "JOIN(array, separator)"@,
        "RANGE(start, end)"@,
        "SUM(array)"@,
        "MIN(array)"@,
        "MAX(array)"@,
        "SPLIT(string, separator)"@,
        "UPPER(string)"@,
        "LOWER(string)"@,
        "TRIM(string)"@,
        "REPLACE(string, old, new)"@,
        "STARTSWITH(string, prefix)"@,
        "ENDSWITH(string, suffix)"@,
        "SUBSTRING(string, start, length)"@,
        "FORMAT(template, args...)"@,
        "ABS(number)"@,
        "FLOOR(number)"@,
        "CEIL(number)"@,
        "ROUND(number)"@,
        "SQRT(number)"@,
        "POW(base, exponent)"@,
        "LOG(number)"@,
        "LOG10(number)"@,
        "SIN(radians)"@,
        "COS(radians)"@,
        "TAN(radians)"@,
        "RANDOM()"@,
        "TYPE(value)"@,
        "STRING(value)"@,
        "NUMBER(string_or_value)"@,
        "ISNUMBER(value)"@,
        "ISSTRING(value)"@,
        "ISARRAY(value)"@,
        "ISDICT(value)"@,
        "KEYS(dict)"@,
        "VALUES(dict)"@,
        "ITEMS(dict)"@,
        "HASKEY(dict, key)"@,
        "JSONPARSE(json_string)"@,
        "JSONSTRINGIFY(value)"@,
        "NOW()"@,
        "FORMATDATE(timestamp, format)"@,
        "SLEEP(seconds)"@,
    ]
}

/// The descriptions of the catalog, in order.
pub open spec fn builtin_descriptions() -> Seq<Seq<char>> {
    seq![
        "打印值到控制台并换行"@,
        "打印值到控制台(不换行)"@,
        "读取用户输入"@,
        "对数组每个元素应用函数"@,
        "过滤数组元素"@,
        "归约数组为单一值"@,
        "返回数组或字符串的长度"@,
        "添加元素到数组末尾"@,
        "移除并返回数组最后一个元素"@,
        "排序数组(升序)"@,
        "反转数组"@,
        "用分隔符连接数组元素为字符串"@,
        "生成数字范围数组"@,
        "计算数组元素总和"@,
        "返回数组最小值"@,
        "返回数组最大值"@,
        "分割字符串为数组"@,
        "转换为大写"@,
        "转换为小写"@,
        "去除首尾空格"@,
        "替换子串"@,
        "检查是否以指定前缀开始"@,
        "检查是否以指定后缀结束"@,
        "提取子串"@,
        "格式化字符串"@,
        "返回绝对值"@,
        "向下取整"@,
        "向上取整"@,
        "四舍五入"@,
        "计算平方根"@,
        "计算幂"@,
        "计算自然对数"@,
        "计算以10为底的对数"@,
        "计算正弦值"@,
        "计算余弦值"@,
        "计算正切值"@,
        "生成 0-1 之间的随机数"@,
        "返回值的类型字符串"@,
        "转换为字符串"@,
        "转换为数字"@,
        "检查是否为数字"@,
        "检查是否为字符串"@,
        "检查是否为数组"@,
        "检查是否为字典"@,
        "返回字典所有键"@,
        "返回字典所有值"@,
        "返回键值对数组"@,
        "检查字典是否包含指定键"@,
        "解析JSON字符串"@,
        "将值转换为JSON字符串"@,
        "返回当前时间戳"@,
        "格式化时间戳"@,
        "暂停执行指定秒数"@,
    ]
}

/// The categories of the catalog, in order.
pub open spec fn builtin_categories() -> Seq<Seq<char>> {
    seq![
        "IO"@,
        "IO"@,
        "IO"@,
        "Array"@,
        "Array"@,
        "Array"@,
        "Array"@,
        "Array"@,
        "Array"@,
        "Array"@,
        "Array"@,
        "Array"@,
        "Array"@,
        "Array"@,
        "Array"@,
        "Array"@,
        "String"@,
        "String"@,
        "String"@,
        "String"@,
        "String"@,
        "String"@,
        "String"@,
        "String"@,
        "String"@,
        "Math"@,
        "Math"@,
        "Math"@,
        "Math"@,
        "Math"@,
        "Math"@,
        "Math"@,
        "Math"@,
        "Math"@,
        "Math"@,
        "Math"@,
        "Math"@,
        "Type"@,
        "Type"@,
        "Type"@,
        "Type"@,
        "Type"@,
        "Type"@,
        "Type"@,
        "Dict"@,
        "Dict"@,
        "Dict"@,
        "Dict"@,
        "JSON"@,
        "JSON"@,
        "DateTime"@,
        "DateTime"@,
        "DateTime"@,
    ]
}

/// Every built-in function, grouped by category: 53 entries, named
/// as `builtin_names` lists them.
pub fn get_builtin_functions() -> (r: Vec<BuiltinFunction>)
    ensures
        r@.len() == builtin_names().len(),
        forall|k: int| 0 <= k < r@.len() ==> (#[trigger] r@[k]).name@ == builtin_names()[k],
        forall|k: int| 0 <= k < r@.len() ==> (#[trigger] r@[k]).signature@ == builtin_signatures()[k],
        forall|k: int|
            0 <= k < r@.len() ==> (#[trigger] r@[k]).description@ == builtin_descriptions()[k],
        forall|k: int| 0 <= k < r@.len() ==> (#[trigger] r@[k]).category@ == builtin_categories()[k],
{
    let mut v: Vec<BuiltinFunction> = Vec::new();
    v.push(
        BuiltinFunction {
                name: "PRINTLN",
                signature: "PRINTLN(value...)",
                description: "打印值到控制台并换行",
                category: "IO",
                examples: &["PRINTLN(\"Hello World\")", "PRINTLN(MY_VAR, MY_VAR2)"],
        },
    );
    v.push(
        BuiltinFunction {
                name: "PRINT",
                signature: "PRINT(value...)",
                description: "打印值到控制台(不换行)",
                category: "IO",
                examples: &["PRINT(\"Result: \")", "PRINT(RESULT)"],
        },
    );
    v.push(
        BuiltinFunction {
                name: "INPUT",
                signature: "INPUT(prompt)",
                description: "读取用户输入",
                category: "IO",
                examples: &["Set NAME INPUT(\"Enter your name: \")"],
        },
    );
    v.push(
        BuiltinFunction {
                name: "MAP",
                signature: "MAP(array, function)",
                description: "对数组每个元素应用函数",
                category: "Array",
                examples: &["Set DOUBLED MAP(NUMBERS, Lambda X -> (X * 2))"],
        },
    );
    v.push(
        BuiltinFunction {
                name: "FILTER",
                signature: "FILTER(array, predicate)",
                description: "过滤数组元素",
                category: "Array",
                examples: &["Set EVENS FILTER(NUMBERS, Lambda X -> ((X % 2) == 0))"],
        },
    );
    v.push(
        BuiltinFunction {
                name: "REDUCE",
                signature: "REDUCE(array, function, initial)",
                description: "归约数组为单一值",
                category: "Array",
                examples: &["Set SUM REDUCE(NUMBERS, Lambda (ACC, X) -> (ACC + X), 0)"],
        },
    );
    v.push(
        BuiltinFunction {
                name: "LENGTH",
                signature: "LENGTH(array_or_string)",
                description: "返回数组或字符串的长度",
                category: "Array",
                examples: &["Set LEN LENGTH([1, 2, 3])", "Set STR_LEN LENGTH(\"hello\")"],
        },
    );
    v.push(
        BuiltinFunction {
                name: "PUSH",
                signature: "PUSH(array, element)",
                description: "添加元素到数组末尾",
                category: "Array",
                examples: &["PUSH(MY_ARR, 42)"],
        },
    );
    v.push(
        BuiltinFunction {
                name: "POP",
                signature: "POP(array)",
                description: "移除并返回数组最后一个元素",
                category: "Array",
                examples: &["Set LAST POP(MY_ARR)"],
        },
    );
    v.push(
        BuiltinFunction {
                name: "SORT",
                signature: "SORT(array)",
                description: "排序数组(升序)",
                category: "Array",
                examples: &["Set SORTED SORT([3, 1, 4, 1, 5])"],
        },
    );
    v.push(
        BuiltinFunction {
                name: "REVERSE",
                signature: "REVERSE(array)",
                description: "反转数组",
                category: "Array",
                examples: &["Set REVERSED REVERSE([1, 2, 3])"],
        },
    );
    v.push(
        BuiltinFunction {
                name: "JOIN",
                signature: "JOIN(array, separator)",
                description: "用分隔符连接数组元素为字符串",
                category: "Array",
                examples: &["Set CSV JOIN([\"a\", \"b\", \"c\"], \",\")"],
        },
    );
    v.push(
        BuiltinFunction {
                name: "RANGE",
                signature: "RANGE(start, end)",
                description: "生成数字范围数组",
                category: "Array",
                examples: &["Set NUMS RANGE(1, 10)"],
        },
    );
    v.push(
        BuiltinFunction {
                name: "SUM",
                signature: "SUM(array)",
                description: "计算数组元素总和",
                category: "Array",
                examples: &["Set TOTAL SUM([1, 2, 3, 4, 5])"],
        },
    );
    v.push(
        BuiltinFunction {
                name: "MIN",
                signature: "MIN(array)",
                description: "返回数组最小值",
                category: "Array",
                examples: &["Set MINIMUM MIN([3, 1, 4, 1, 5])"],
        },
    );
    v.push(
        BuiltinFunction {
                name: "MAX",
                signature: "MAX(array)",
                description: "返回数组最大值",
                category: "Array",
                examples: &["Set MAXIMUM MAX([3, 1, 4, 1, 5])"],
        },
    );
    v.push(
        BuiltinFunction {
                name: "SPLIT",
                signature: "SPLIT(string, separator)",
                description: "分割字符串为数组",
                category: "String",
                examples: &["Set PARTS SPLIT(\"a,b,c\", \",\")"],
        },
    );
    v.push(
        BuiltinFunction {
                name: "UPPER",
                signature: "UPPER(string)",
                description: "转换为大写",
                category: "String",
                examples: &["Set UPPER UPPER(\"hello\")"],
        },
    );
    v.push(
        BuiltinFunction {
                name: "LOWER",
                signature: "LOWER(string)",
                description: "转换为小写",
                category: "String",
                examples: &["Set LOWER LOWER(\"HELLO\")"],
        },
    );
    v.push(
        BuiltinFunction {
                name: "TRIM",
                signature: "TRIM(string)",
                description: "去除首尾空格",
                category: "String",
                examples: &["Set TRIMMED TRIM(\"  hello  \")"],
        },
    );
    v.push(
        BuiltinFunction {
                name: "REPLACE",
                signature: "REPLACE(string, old, new)",
                description: "替换子串",
                category: "String",
                examples: &["Set REPLACED REPLACE(\"hello\", \"l\", \"r\")"],
        },
    );
    v.push(
        BuiltinFunction {
                name: "STARTSWITH",
                signature: "STARTSWITH(string, prefix)",
                description: "检查是否以指定前缀开始",
                category: "String",
                examples: &["Set IS_PREFIX STARTSWITH(\"hello\", \"he\")"],
        },
    );
    v.push(
        BuiltinFunction {
                name: "ENDSWITH",
                signature: "ENDSWITH(string, suffix)",
                description: "检查是否以指定后缀结束",
                category: "String",
                examples: &["Set IS_SUFFIX ENDSWITH(\"hello\", \"lo\")"],
        },
    );
    v.push(
        BuiltinFunction {
                name: "SUBSTRING",
                signature: "SUBSTRING(string, start, length)",
                description: "提取子串",
                category: "String",
                examples: &["Set SUB SUBSTRING(\"hello\", 1, 3)"],
        },
    );
    v.push(
        BuiltinFunction {
                name: "FORMAT",
                signature: "FORMAT(template, args...)",
                description: "格式化字符串",
                category: "String",
                examples: &["Set MSG FORMAT(\"Hello {}, you are {} years old\", NAME, AGE)"],
        },
    );
    v.push(
        BuiltinFunction {
                name: "ABS",
                signature: "ABS(number)",
                description: "返回绝对值",
                category: "Math",
                examples: &["Set ABSOLUTE ABS(-5)"],
        },
    );
    v.push(
        BuiltinFunction {
                name: "FLOOR",
                signature: "FLOOR(number)",
                description: "向下取整",
                category: "Math",
                examples: &["Set FLOORED FLOOR(3.7)"],
        },
    );
    v.push(
        BuiltinFunction {
                name: "CEIL",
                signature: "CEIL(number)",
                description: "向上取整",
                category: "Math",
                examples: &["Set CEILED CEIL(3.2)"],
        },
    );
    v.push(
        BuiltinFunction {
                name: "ROUND",
                signature: "ROUND(number)",
                description: "四舍五入",
                category: "Math",
                examples: &["Set ROUNDED ROUND(3.5)"],
        },
    );
    v.push(
        BuiltinFunction {
                name: "SQRT",
                signature: "SQRT(number)",
                description: "计算平方根",
                category: "Math",
                examples: &["Set ROOT SQRT(16)"],
        },
    );
    v.push(
        BuiltinFunction {
                name: "POW",
                signature: "POW(base, exponent)",
                description: "计算幂",
                category: "Math",
                examples: &["Set POWER POW(2, 3)"],
        },
    );
    v.push(
        BuiltinFunction {
                name: "LOG",
                signature: "LOG(number)",
                description: "计算自然对数",
                category: "Math",
                examples: &["Set LN LOG(2.718)"],
        },
    );
    v.push(
        BuiltinFunction {
                name: "LOG10",
                signature: "LOG10(number)",
                description: "计算以10为底的对数",
                category: "Math",
                examples: &["Set LG LOG10(100)"],
        },
    );
    v.push(
        BuiltinFunction {
                name: "SIN",
                signature: "SIN(radians)",
                description: "计算正弦值",
                category: "Math",
                examples: &["Set SINE SIN(1.57)"],
        },
    );
    v.push(
        BuiltinFunction {
                name: "COS",
                signature: "COS(radians)",
                description: "计算余弦值",
                category: "Math",
                examples: &["Set COSINE COS(0)"],
        },
    );
    v.push(
        BuiltinFunction {
                name: "TAN",
                signature: "TAN(radians)",
                description: "计算正切值",
                category: "Math",
                examples: &["Set TANGENT TAN(0.785)"],
        },
    );
    v.push(
        BuiltinFunction {
                name: "RANDOM",
                signature: "RANDOM()",
                description: "生成 0-1 之间的随机数",
                category: "Math",
                examples: &["Set RAND RANDOM()"],
        },
    );
    v.push(
        BuiltinFunction {
                name: "TYPE",
                signature: "TYPE(value)",
                description: "返回值的类型字符串",
                category: "Type",
                examples: &["Set T TYPE(42)"],
        },
    );
    v.push(
        BuiltinFunction {
                name: "STRING",
                signature: "STRING(value)",
                description: "转换为字符串",
                category: "Type",
                examples: &["Set STR STRING(42)"],
        },
    );
    v.push(
        BuiltinFunction {
                name: "NUMBER",
                signature: "NUMBER(string_or_value)",
                description: "转换为数字",
                category: "Type",
                examples: &["Set NUM NUMBER(\"42\")"],
        },
    );
    v.push(
        BuiltinFunction {
                name: "ISNUMBER",
                signature: "ISNUMBER(value)",
                description: "检查是否为数字",
                category: "Type",
                examples: &["Set IS_NUM ISNUMBER(42)"],
        },
    );
    v.push(
        BuiltinFunction {
                name: "ISSTRING",
                signature: "ISSTRING(value)",
                description: "检查是否为字符串",
                category: "Type",
                examples: &["Set IS_STR ISSTRING(\"hello\")"],
        },
    );
    v.push(
        BuiltinFunction {
                name: "ISARRAY",
                signature: "ISARRAY(value)",
                description: "检查是否为数组",
                category: "Type",
                examples: &["Set IS_ARR ISARRAY([1, 2])"],
        },
    );
    v.push(
        BuiltinFunction {
                name: "ISDICT",
                signature: "ISDICT(value)",
                description: "检查是否为字典",
                category: "Type",
                examples: &["Set IS_DICT ISDICT({\"key\": \"value\"})"],
        },
    );
    v.push(
        BuiltinFunction {
                name: "KEYS",
                signature: "KEYS(dict)",
                description: "返回字典所有键",
                category: "Dict",
                examples: &["Set ALL_KEYS KEYS(MY_DICT)"],
        },
    );
    v.push(
        BuiltinFunction {
                name: "VALUES",
                signature: "VALUES(dict)",
                description: "返回字典所有值",
                category: "Dict",
                examples: &["Set ALL_VALUES VALUES(MY_DICT)"],
        },
    );
    v.push(
        BuiltinFunction {
                name: "ITEMS",
                signature: "ITEMS(dict)",
                description: "返回键值对数组",
                category: "Dict",
                examples: &["Set PAIRS ITEMS(MY_DICT)"],
        },
    );
    v.push(
        BuiltinFunction {
                name: "HASKEY",
                signature: "HASKEY(dict, key)",
                description: "检查字典是否包含指定键",
                category: "Dict",
                examples: &["Set HAS HASKEY(MY_DICT, \"name\")"],
        },
    );
    v.push(
        BuiltinFunction {
                name: "JSONPARSE",
                signature: "JSONPARSE(json_string)",
                description: "解析JSON字符串",
                category: "JSON",
                examples: &["Set DATA JSONPARSE(\"{\\\"name\\\": \\\"Alice\\\"}\")"],
        },
    );
    v.push(
        BuiltinFunction {
                name: "JSONSTRINGIFY",
                signature: "JSONSTRINGIFY(value)",
                description: "将值转换为JSON字符串",
                category: "JSON",
                examples: &["Set JSON JSONSTRINGIFY(MY_DATA)"],
        },
    );
    v.push(
        BuiltinFunction {
                name: "NOW",
                signature: "NOW()",
                description: "返回当前时间戳",
                category: "DateTime",
                examples: &["Set TIMESTAMP NOW()"],
        },
    );
    v.push(
        BuiltinFunction {
                name: "FORMATDATE",
                signature: "FORMATDATE(timestamp, format)",
                description: "格式化时间戳",
                category: "DateTime",
                examples: &["Set DATE_STR FORMATDATE(NOW(), \"%Y-%m-%d\")"],
        },
    );
    v.push(
        BuiltinFunction {
                name: "SLEEP",
                signature: "SLEEP(seconds)",
                description: "暂停执行指定秒数",
                category: "DateTime",
                examples: &["SLEEP(1)"],
        },
    );
    proof {
        assert forall|k: int| 0 <= k < v@.len() implies (#[trigger] v@[k]).name@
            == builtin_names()[k] && v@[k].signature@ == builtin_signatures()[k]
            && v@[k].description@ == builtin_descriptions()[k] && v@[k].category@
            == builtin_categories()[k] by {
            reveal_strlit("ABS");
            reveal_strlit("ABS(number)");
            reveal_strlit("Array");
            reveal_strlit("CEIL");
            reveal_strlit("CEIL(number)");
            reveal_strlit("COS");
            reveal_strlit("COS(radians)");
            reveal_strlit("DateTime");
            reveal_strlit("Dict");
            reveal_strlit("ENDSWITH");
            reveal_strlit("ENDSWITH(string, suffix)");
            reveal_strlit("FILTER");
            reveal_strlit("FILTER(array, predicate)");
            reveal_strlit("FLOOR");
            reveal_strlit("FLOOR(number)");
            reveal_strlit("FORMAT");
            reveal_strlit("FORMAT(template, args...)");
            reveal_strlit("FORMATDATE");
            reveal_strlit("FORMATDATE(timestamp, format)");
            reveal_strlit("HASKEY");
            reveal_strlit("HASKEY(dict, key)");
            reveal_strlit("INPUT");
            reveal_strlit("INPUT(prompt)");
            reveal_strlit("IO");
            reveal_strlit("ISARRAY");
            reveal_strlit("ISARRAY(value)");
            reveal_strlit("ISDICT");
            reveal_strlit("ISDICT(value)");
            reveal_strlit("ISNUMBER");
            reveal_strlit("ISNUMBER(value)");
            reveal_strlit("ISSTRING");
            reveal_strlit("ISSTRING(value)");
            reveal_strlit("ITEMS");
            reveal_strlit("ITEMS(dict)");
            reveal_strlit("JOIN");
            reveal_strlit("JOIN(array, separator)");
            reveal_strlit("JSON");
            reveal_strlit("JSONPARSE");
            reveal_strlit("JSONPARSE(json_string)");
            reveal_strlit("JSONSTRINGIFY");
            reveal_strlit("JSONSTRINGIFY(value)");
            reveal_strlit("KEYS");
            reveal_strlit("KEYS(dict)");
            reveal_strlit("LENGTH");
            reveal_strlit("LENGTH(array_or_string)");
            reveal_strlit("LOG");
            reveal_strlit("LOG(number)");
            reveal_strlit("LOG10");
            reveal_strlit("LOG10(number)");
            reveal_strlit("LOWER");
            reveal_strlit("LOWER(string)");
            reveal_strlit("MAP");
            reveal_strlit("MAP(array, function)");
            reveal_strlit("MAX");
            reveal_strlit("MAX(array)");
            reveal_strlit("MIN");
            reveal_strlit("MIN(array)");
            reveal_strlit("Math");
            reveal_strlit("NOW");
            reveal_strlit("NOW()");
            reveal_strlit("NUMBER");
            reveal_strlit("NUMBER(string_or_value)");
            reveal_strlit("POP");
            reveal_strlit("POP(array)");
            reveal_strlit("POW");
            reveal_strlit("POW(base, exponent)");
            reveal_strlit("PRINT");
            reveal_strlit("PRINT(RESULT)");
            reveal_strlit("PRINT(\"Result: \")");
            reveal_strlit("PRINT(value...)");
            reveal_strlit("PRINTLN");
            reveal_strlit("PRINTLN(MY_VAR, MY_VAR2)");
            reveal_strlit("PRINTLN(\"Hello World\")");
            reveal_strlit("PRINTLN(value...)");
            reveal_strlit("PUSH");
            reveal_strlit("PUSH(MY_ARR, 42)");
            reveal_strlit("PUSH(array, element)");
            reveal_strlit("RANDOM");
            reveal_strlit("RANDOM()");
            reveal_strlit("RANGE");
            reveal_strlit("RANGE(start, end)");
            reveal_strlit("REDUCE");
            reveal_strlit("REDUCE(array, function, initial)");
            reveal_strlit("REPLACE");
            reveal_strlit("REPLACE(string, old, new)");
            reveal_strlit("REVERSE");
            reveal_strlit("REVERSE(array)");
            reveal_strlit("ROUND");
            reveal_strlit("ROUND(number)");
            reveal_strlit("SIN");
            reveal_strlit("SIN(radians)");
            reveal_strlit("SLEEP");
            reveal_strlit("SLEEP(1)");
            reveal_strlit("SLEEP(seconds)");
            reveal_strlit("SORT");
            reveal_strlit("SORT(array)");
            reveal_strlit("SPLIT");
            reveal_strlit("SPLIT(string, separator)");
            reveal_strlit("SQRT");
            reveal_strlit("SQRT(number)");
            reveal_strlit("STARTSWITH");
            reveal_strlit("STARTSWITH(string, prefix)");
            reveal_strlit("STRING");
            reveal_strlit("STRING(value)");
            reveal_strlit("SUBSTRING");
            reveal_strlit("SUBSTRING(string, start, length)");
            reveal_strlit("SUM");
            reveal_strlit("SUM(array)");
            reveal_strlit("Set ABSOLUTE ABS(-5)");
            reveal_strlit("Set ALL_KEYS KEYS(MY_DICT)");
            reveal_strlit("Set ALL_VALUES VALUES(MY_DICT)");
            reveal_strlit("Set CEILED CEIL(3.2)");
            reveal_strlit("Set COSINE COS(0)");
            reveal_strlit("Set DATA JSONPARSE(\"{\\\"name\\\": \\\"Alice\\\"}\")");
            reveal_strlit("Set DATE_STR FORMATDATE(NOW(), \"%Y-%m-%d\")");
            reveal_strlit("Set DOUBLED MAP(NUMBERS, Lambda X -> (X * 2))");
            reveal_strlit("Set EVENS FILTER(NUMBERS, Lambda X -> ((X % 2) == 0))");
            reveal_strlit("Set FLOORED FLOOR(3.7)");
            reveal_strlit("Set HAS HASKEY(MY_DICT, \"name\")");
            reveal_strlit("Set IS_ARR ISARRAY([1, 2])");
            reveal_strlit("Set IS_DICT ISDICT({\"key\": \"value\"})");
            reveal_strlit("Set IS_NUM ISNUMBER(42)");
            reveal_strlit("Set IS_PREFIX STARTSWITH(\"hello\", \"he\")");
            reveal_strlit("Set IS_STR ISSTRING(\"hello\")");
            reveal_strlit("Set IS_SUFFIX ENDSWITH(\"hello\", \"lo\")");
            reveal_strlit("Set JSON JSONSTRINGIFY(MY_DATA)");
            reveal_strlit("Set LAST POP(MY_ARR)");
            reveal_strlit("Set LEN LENGTH([1, 2, 3])");
            reveal_strlit("Set LG LOG10(100)");
            reveal_strlit("Set LN LOG(2.718)");
            reveal_strlit("Set LOWER LOWER(\"HELLO\")");
            reveal_strlit("Set MAXIMUM MAX([3, 1, 4, 1, 5])");
            reveal_strlit("Set MINIMUM MIN([3, 1, 4, 1, 5])");
            reveal_strlit("Set MSG FORMAT(\"Hello {}, you are {} years old\", NAME, AGE)");
            reveal_strlit("Set NAME INPUT(\"Enter your name: \")");
            reveal_strlit("Set NUM NUMBER(\"42\")");
            reveal_strlit("Set NUMS RANGE(1, 10)");
            reveal_strlit("Set PAIRS ITEMS(MY_DICT)");
            reveal_strlit("Set PARTS SPLIT(\"a,b,c\", \",\")");
            reveal_strlit("Set POWER POW(2, 3)");
            reveal_strlit("Set RAND RANDOM()");
            reveal_strlit("Set REPLACED REPLACE(\"hello\", \"l\", \"r\")");
            reveal_strlit("Set REVERSED REVERSE([1, 2, 3])");
            reveal_strlit("Set ROOT SQRT(16)");
            reveal_strlit("Set ROUNDED ROUND(3.5)");
            reveal_strlit("Set SINE SIN(1.57)");
            reveal_strlit("Set SORTED SORT([3, 1, 4, 1, 5])");
            reveal_strlit("Set STR STRING(42)");
            reveal_strlit("Set STR_LEN LENGTH(\"hello\")");
            reveal_strlit("Set SUB SUBSTRING(\"hello\", 1, 3)");
            reveal_strlit("Set SUM REDUCE(NUMBERS, Lambda (ACC, X) -> (ACC + X), 0)");
            reveal_strlit("Set T TYPE(42)");
            reveal_strlit("Set TANGENT TAN(0.785)");
            reveal_strlit("Set TIMESTAMP NOW()");
            reveal_strlit("Set TOTAL SUM([1, 2, 3, 4, 5])");
            reveal_strlit("Set TRIMMED TRIM(\"  hello  \")");
            reveal_strlit("Set UPPER UPPER(\"hello\")");
            reveal_strlit("String");
            reveal_strlit("TAN");
            reveal_strlit("TAN(radians)");
            reveal_strlit("TRIM");
            reveal_strlit("TRIM(string)");
            reveal_strlit("TYPE");
            reveal_strlit("TYPE(value)");
            reveal_strlit("Type");
            reveal_strlit("UPPER");
            reveal_strlit("UPPER(string)");
            reveal_strlit("VALUES");
            reveal_strlit("VALUES(dict)");
            reveal_strlit("分割字符串为数组");
            reveal_strlit("去除首尾空格");
            reveal_strlit("反转数组");
            reveal_strlit("向上取整");
            reveal_strlit("向下取整");
            reveal_strlit("四舍五入");
            reveal_strlit("对数组每个元素应用函数");
            reveal_strlit("将值转换为JSON字符串");
            reveal_strlit("归约数组为单一值");
            reveal_strlit("打印值到控制台(不换行)");
            reveal_strlit("打印值到控制台并换行");
            reveal_strlit("排序数组(升序)");
            reveal_strlit("提取子串");
            reveal_strlit("暂停执行指定秒数");
            reveal_strlit("替换子串");
            reveal_strlit("格式化字符串");
            reveal_strlit("格式化时间戳");
            reveal_strlit("检查字典是否包含指定键");
            reveal_strlit("检查是否为字典");
            reveal_strlit("检查是否为字符串");
            reveal_strlit("检查是否为数字");
            reveal_strlit("检查是否为数组");
            reveal_strlit("检查是否以指定前缀开始");
            reveal_strlit("检查是否以指定后缀结束");
            reveal_strlit("添加元素到数组末尾");
            reveal_strlit("生成 0-1 之间的随机数");
            reveal_strlit("生成数字范围数组");
            reveal_strlit("用分隔符连接数组元素为字符串");
            reveal_strlit("移除并返回数组最后一个元素");
            reveal_strlit("解析JSON字符串");
            reveal_strlit("计算以10为底的对数");
            reveal_strlit("计算余弦值");
            reveal_strlit("计算幂");
            reveal_strlit("计算平方根");
            reveal_strlit("计算数组元素总和");
            reveal_strlit("计算正切值");
            reveal_strlit("计算正弦值");
            reveal_strlit("计算自然对数");
            reveal_strlit("读取用户输入");
            reveal_strlit("转换为大写");
            reveal_strlit("转换为字符串");
            reveal_strlit("转换为小写");
            reveal_strlit("转换为数字");
            reveal_strlit("过滤数组元素");
            reveal_strlit("返回值的类型字符串");
            reveal_strlit("返回字典所有值");
            reveal_strlit("返回字典所有键");
            reveal_strlit("返回当前时间戳");
            reveal_strlit("返回数组或字符串的长度");
            reveal_strlit("返回数组最大值");
            reveal_strlit("返回数组最小值");
            reveal_strlit("返回绝对值");
            reveal_strlit("返回键值对数组");
        }
    }
    v
}

/// Index of the first entry of `catalog` named `name`.
pub open spec fn first_named(catalog: Seq<BuiltinFunction>, name: Seq<char>) -> Option<int>
    decreases catalog.len(),
{
    if catalog.len() == 0 {
        None
    } else {
        match first_named(catalog.drop_last(), name) {
            Some(k) => Some(k),
            None => if catalog.last().name@ == name {
                Some(catalog.len() - 1)
            } else {
                None
            },
        }
    }
}

/// The position in `catalog` of the first function called `name`.
pub fn find_builtin(catalog: &Vec<BuiltinFunction>, name: &str) -> (r: Option<usize>)
    ensures
        r matches Some(k) ==> k < catalog@.len() && first_named(catalog@, name@) == Some(k as int),
        r is None ==> first_named(catalog@, name@) is None,
{
    let mut k: usize = 0;
    while k < catalog.len()
        invariant
            k <= catalog@.len(),
            first_named(catalog@.subrange(0, k as int), name@) is None,
        decreases catalog@.len() - k,
    {
        proof {
            assert(catalog@.subrange(0, k + 1).drop_last() =~= catalog@.subrange(0, k as int));
        }
        if eq_literal(catalog[k].name, name) {
            proof {
                lemma_first_named_prefix(catalog@, name@, k as int + 1);
            }
            return Some(k);
        }
        k = k + 1;
    }
    proof {
        assert(catalog@.subrange(0, catalog@.len() as int) =~= catalog@);
    }
    None
}

/// A match found in a prefix is the match of the whole catalog.
proof fn lemma_first_named_prefix(c: Seq<BuiltinFunction>, name: Seq<char>, n: int)
    requires
        0 <= n <= c.len(),
        first_named(c.subrange(0, n), name) is Some,
    ensures
        first_named(c, name) == first_named(c.subrange(0, n), name),
    decreases c.len() - n,
{
    if n < c.len() {
        assert(c.subrange(0, n + 1).drop_last() =~= c.subrange(0, n));
        lemma_first_named_prefix(c, name, n + 1);
    } else {
        assert(c.subrange(0, n) =~= c);
    }
}

} // verus!
